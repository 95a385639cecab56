use vstd::prelude::*;

verus! {

/// Classification of the machine's installed edition, as reported by the
/// platform's version query. Raw codes outside the known set resolve to
/// `Unknown`, never to an error.
#[derive(Clone, Copy, Debug, PartialEq, Eq, Structural)]
pub enum ProductType {
    Unknown,
    Workstation,
    DomainController,
    Server,
}

/// The fixed mapping from a raw role byte to a `ProductType`.
pub open spec fn classify_spec(code: u8) -> ProductType {
    if code == 1 {
        ProductType::Workstation
    } else if code == 2 {
        ProductType::DomainController
    } else if code == 3 {
        ProductType::Server
    } else {
        ProductType::Unknown
    }
}

/// Maps the raw role byte from the platform's version record to a named
/// role. Total: every byte value is classified, and unrecognized codes
/// fall back to `Unknown`.
pub fn classify(code: u8) -> (t: ProductType)
    ensures
        t == classify_spec(code),
{
    match code {
        1 => ProductType::Workstation,
        2 => ProductType::DomainController,
        3 => ProductType::Server,
        _ => ProductType::Unknown,
    }
}

impl ProductType {
    /// The role as text.
    pub fn to_text(&self) -> (s: String)
        ensures
            *self == ProductType::Unknown ==> s@ == "(unknown)"@,
            *self == ProductType::Workstation ==> s@ == "workstation"@,
            *self == ProductType::DomainController ==> s@ == "domain controller"@,
            *self == ProductType::Server ==> s@ == "server"@,
    {
        match self {
            ProductType::Unknown => String::from_str("(unknown)"),
            ProductType::Workstation => String::from_str("workstation"),
            ProductType::DomainController => String::from_str("domain controller"),
            ProductType::Server => String::from_str("server"),
        }
    }
}

impl Default for ProductType {
    /// The default role is `Unknown`.
    fn default() -> (t: Self)
        ensures
            t == ProductType::Unknown,
    {
        ProductType::Unknown
    }
}

/// An operating-system version snapshot: the three numeric components and
/// the machine role, all taken from a single platform query.
#[derive(Clone, Copy, Debug, PartialEq, Eq, Structural)]
pub struct Version {
    pub major: u32,
    pub minor: u32,
    pub build: u32,
    pub product_type: ProductType,
}

impl Version {
    /// Builds a version value directly from its components.
    pub fn new(major: u32, minor: u32, build: u32, product_type: ProductType) -> (v: Self)
        ensures
            v.major == major,
            v.minor == minor,
            v.build == build,
            v.product_type == product_type,
    {
        Version { major, minor, build, product_type }
    }

    /// The major version component.
    pub fn major(&self) -> (n: u32)
        ensures
            n == self.major,
    {
        self.major
    }

    /// The minor version component.
    pub fn minor(&self) -> (n: u32)
        ensures
            n == self.minor,
    {
        self.minor
    }

    /// The build number.
    pub fn build(&self) -> (n: u32)
        ensures
            n == self.build,
    {
        self.build
    }

    /// The machine role.
    pub fn product_type(&self) -> (t: ProductType)
        ensures
            t == self.product_type,
    {
        self.product_type
    }
}

impl Default for Version {
    /// The default version is all zeroes with an `Unknown` role.
    fn default() -> (v: Self)
        ensures
            v.major == 0,
            v.minor == 0,
            v.build == 0,
            v.product_type == ProductType::Unknown,
    {
        Version { major: 0, minor: 0, build: 0, product_type: ProductType::Unknown }
    }
}

/// What the version query returns for a given raw record: the platform
/// call's status decides between a fully populated version and the
/// propagated native error code.
pub open spec fn query_result_spec(
    status: u32,
    major: u32,
    minor: u32,
    build: u32,
    role_code: u8,
) -> Result<Version, u32> {
    if status == 0 {
        Ok(Version { major, minor, build, product_type: classify_spec(role_code) })
    } else {
        Err(status)
    }
}

/// Turns the fields read out of a raw platform version record into the
/// query's result. A zero status yields a version whose fields are copied
/// from the record and whose role is classified from the raw role byte; a
/// non-zero status is propagated unchanged as the error, and no version is
/// produced.
pub fn version_from_query(
    status: u32,
    major: u32,
    minor: u32,
    build: u32,
    role_code: u8,
) -> (r: Result<Version, u32>)
    ensures
        r == query_result_spec(status, major, minor, build, role_code),
{
    if status != 0 {
        return Err(status);
    }
    Ok(Version { major, minor, build, product_type: classify(role_code) })
}

/// Law: the version query's interpretation is deterministic. Two calls
/// that observe the same raw record — the platform's state unchanged
/// between them — produce field-for-field identical results.
pub proof fn lemma_query_idempotent(
    status1: u32,
    major1: u32,
    minor1: u32,
    build1: u32,
    role1: u8,
    status2: u32,
    major2: u32,
    minor2: u32,
    build2: u32,
    role2: u8,
)
    requires
        status1 == status2,
        major1 == major2,
        minor1 == minor2,
        build1 == build2,
        role1 == role2,
    ensures
        query_result_spec(status1, major1, minor1, build1, role1) == query_result_spec(
            status2,
            major2,
            minor2,
            build2,
            role2,
        ),
{
}

} // verus!
