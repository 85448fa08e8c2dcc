use vstd::prelude::*;
use vstd::string::StringExecFns;

verus! {

/// The closed set of supported output languages for the code generator.
#[derive(Clone, Copy, PartialEq, Eq, Structural, Debug)]
pub enum Generator {
    Rust,
    Python,
    Typescript,
    Golang,
}

/// The selector under its configuration name, if the name is known.
pub open spec fn generator_of_name(n: Seq<char>) -> Option<Generator> {
    if n == "rust"@ {
        Some(Generator::Rust)
    } else if n == "python"@ {
        Some(Generator::Python)
    } else if n == "typescript"@ {
        Some(Generator::Typescript)
    } else if n == "golang"@ {
        Some(Generator::Golang)
    } else {
        None
    }
}

/// The default repository name for each target.
pub open spec fn repo_name_of(g: Generator) -> Seq<char> {
    match g {
        Generator::Rust => "plaid-rs"@,
        Generator::Python => "plaid-python"@,
        Generator::Typescript => "plaid-ts"@,
        Generator::Golang => "plaid-go"@,
    }
}

/// The default package name for each target.
pub open spec fn package_name_of(g: Generator) -> Seq<char> {
    match g {
        Generator::Python => "plaid2"@,
        _ => "plaid"@,
    }
}

impl Generator {
    /// Parses a configuration value into a selector; an unknown name is
    /// rejected, never guessed.
    pub fn from_name(name: &str) -> (r: Option<Generator>)
        ensures
            r == generator_of_name(name@),
    {
        let n: String = name.to_owned();
        if n.eq(&"rust".to_owned()) {
            Some(Generator::Rust)
        } else if n.eq(&"python".to_owned()) {
            Some(Generator::Python)
        } else if n.eq(&"typescript".to_owned()) {
            Some(Generator::Typescript)
        } else if n.eq(&"golang".to_owned()) {
            Some(Generator::Golang)
        } else {
            None
        }
    }

    /// The default repository name for this target.
    pub fn repo_name(&self) -> (r: &'static str)
        ensures
            r@ == repo_name_of(*self),
    {
        match self {
            Generator::Rust => "plaid-rs",
            Generator::Python => "plaid-python",
            Generator::Typescript => "plaid-ts",
            Generator::Golang => "plaid-go",
        }
    }

    /// The default package name for this target.
    pub fn package_name(&self) -> (r: &'static str)
        ensures
            r@ == package_name_of(*self),
    {
        match self {
            Generator::Python => "plaid2",
            _ => "plaid",
        }
    }
}

/// Everything the code-generator collaborator is handed beside the corrected
/// document.
pub struct PackagingMetadata {
    pub package_name: String,
    pub service_name: String,
    pub qualified_repo: String,
    pub dest_path: String,
    pub package_version: String,
    pub generator: Generator,
}

/// Builds the packaging metadata for a target from the explicit
/// configuration: the organization name, the human-readable service name,
/// and the package version.
pub fn build_packaging(
    generator: Generator,
    org: &str,
    service_name: &str,
    package_version: &str,
) -> (r: PackagingMetadata)
    ensures
        r.package_name@ == package_name_of(generator),
        r.service_name@ == service_name@,
        r.qualified_repo@ == org@ + "/"@ + repo_name_of(generator),
        r.dest_path@ == "../"@ + repo_name_of(generator),
        r.package_version@ == package_version@,
        r.generator == generator,
{
    let repo = generator.repo_name();
    let mut qualified: String = org.to_owned();
    qualified.append("/");
    qualified.append(repo);
    let mut dest: String = "../".to_owned();
    dest.append(repo);
    PackagingMetadata {
        package_name: generator.package_name().to_owned(),
        service_name: service_name.to_owned(),
        qualified_repo: qualified,
        dest_path: dest,
        package_version: package_version.to_owned(),
        generator,
    }
}

} // verus!
