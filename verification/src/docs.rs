//! The documentation shortcuts the bot answers to: each flag maps to one
//! documentation page.

use vstd::prelude::*;

verus! {

/// A documentation page the bot can link.
#[derive(Clone, Copy, PartialEq, Eq, Structural, Debug)]
pub enum DocsLinks {
    Secrets,
    Databases,
    Persist,
    Assets,
    Custom,
}

/// Compares two string slices by their characters.
fn str_eq(a: &str, b: &str) -> (r: bool)
    ensures
        r == (a@ == b@),
{
    let owned_a = a.to_owned();
    let owned_b = b.to_owned();
    owned_a == owned_b
}

impl DocsLinks {
    /// Parses a documentation flag; an unknown flag is rejected.
    pub fn from_str(flag: &str) -> (r: Result<DocsLinks, String>)
        ensures
            (r == Ok::<DocsLinks, String>(DocsLinks::Secrets)) <==> flag@ == "secrets"@,
            (r == Ok::<DocsLinks, String>(DocsLinks::Databases)) <==> flag@ == "databases"@,
            (r == Ok::<DocsLinks, String>(DocsLinks::Persist)) <==> flag@ == "persist"@,
            (r == Ok::<DocsLinks, String>(DocsLinks::Assets)) <==> flag@ == "assets"@,
            (r == Ok::<DocsLinks, String>(DocsLinks::Custom)) <==> flag@ == "custom"@,
            r matches Err(e) ==> e@ == "Doc doesn't exist"@,
    {
        proof {
            reveal_strlit("secrets");
            reveal_strlit("databases");
            reveal_strlit("persist");
            reveal_strlit("assets");
            reveal_strlit("custom");
            assert("secrets"@[0] == 's' && "persist"@[0] == 'p');
            assert("assets"@[0] == 'a' && "custom"@[0] == 'c');
        }
        if str_eq(flag, "secrets") {
            Ok(DocsLinks::Secrets)
        } else if str_eq(flag, "databases") {
            Ok(DocsLinks::Databases)
        } else if str_eq(flag, "persist") {
            Ok(DocsLinks::Persist)
        } else if str_eq(flag, "assets") {
            Ok(DocsLinks::Assets)
        } else if str_eq(flag, "custom") {
            Ok(DocsLinks::Custom)
        } else {
            Err(String::from_str("Doc doesn't exist"))
        }
    }

    /// The documentation page the flag stands for.
    pub fn to_link(&self) -> (r: String)
        ensures
            *self == DocsLinks::Secrets ==> r@ == "https://docs.shuttle.rs/resources/shuttle-secrets"@,
            *self == DocsLinks::Databases ==> r@
                == "https://docs.shuttle.rs/resources/shuttle-shared-db"@,
            *self == DocsLinks::Persist ==> r@ == "https://docs.shuttle.rs/resources/shuttle-persist"@,
            *self == DocsLinks::Assets ==> r@
                == "https://docs.shuttle.rs/resources/shuttle-static-folder"@,
            *self == DocsLinks::Custom ==> r@ == "https://docs.shuttle.rs/tutorials/custom-service"@,
    {
        match self {
            DocsLinks::Secrets => String::from_str("https://docs.shuttle.rs/resources/shuttle-secrets"),
            DocsLinks::Databases => String::from_str(
                "https://docs.shuttle.rs/resources/shuttle-shared-db",
            ),
            DocsLinks::Persist => String::from_str("https://docs.shuttle.rs/resources/shuttle-persist"),
            DocsLinks::Assets => String::from_str(
                "https://docs.shuttle.rs/resources/shuttle-static-folder",
            ),
            DocsLinks::Custom => String::from_str("https://docs.shuttle.rs/tutorials/custom-service"),
        }
    }
}

} // verus!
