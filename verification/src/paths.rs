//! Where the data files live on each supported operating system.
use vstd::prelude::*;
use crate::text::{concat, owned, same_text};

verus! {

broadcast use vstd::string::group_string_axioms;

/// The path of `filename` in the data directory, for an operating system
/// named as `std::env::consts::OS` names it (`"windows"`, `"linux"`).
pub open spec fn data_path_spec(os: Seq<char>, filename: Seq<char>) -> Option<Seq<char>> {
    if os == "windows"@ {
        Some(".\\data\\"@ + filename)
    } else if os == "linux"@ {
        Some("./data/"@ + filename)
    } else {
        None
    }
}

/// As `data_path_spec`, for an operating system named with a capital
/// (`"Windows"`, `"Linux"`), as the R/S service receives it.
pub open spec fn titled_data_path_spec(os: Seq<char>, filename: Seq<char>) -> Option<
    Seq<char>,
> {
    if os == "Windows"@ {
        Some(".\\data\\"@ + filename)
    } else if os == "Linux"@ {
        Some("./data/"@ + filename)
    } else {
        None
    }
}

pub open spec fn unsupported_os_text() -> Seq<char> {
    "Unsupported OS"@
}

pub open spec fn incorrect_os_text() -> Seq<char> {
    "Error: incorrect operating system"@
}

/// The path of `filename` in the data directory of the operating system `os`,
/// or the error `"Unsupported OS"`.
pub fn get_os(os: &str, filename: &str) -> (res: Result<String, String>)
    ensures
        match data_path_spec(os@, filename@) {
            Some(p) => res is Ok && res->Ok_0@ == p,
            None => res is Err && res->Err_0@ == unsupported_os_text(),
        },
        os@ == "windows"@ ==> res is Ok && res->Ok_0@ == ".\\data\\"@ + filename@,
        os@ == "linux"@ ==> res is Ok && res->Ok_0@ == "./data/"@ + filename@,
        os@ != "windows"@ && os@ != "linux"@ ==> res is Err && res->Err_0@ == "Unsupported OS"@,
{
    proof {
        reveal_strlit("windows");
        reveal_strlit("linux");
        assert("windows"@.len() != "linux"@.len());
    }
    if same_text(os, "windows") {
        Ok(concat(".\\data\\", filename))
    } else if same_text(os, "linux") {
        Ok(concat("./data/", filename))
    } else {
        Err(owned("Unsupported OS"))
    }
}

/// The path of `filename` in the data directory of the operating system
/// `os` named with a capital, or the error of an incorrect operating system.
pub fn titled_data_path(os: &str, filename: &str) -> (res: Result<String, String>)
    ensures
        match titled_data_path_spec(os@, filename@) {
            Some(p) => res is Ok && res->Ok_0@ == p,
            None => res is Err && res->Err_0@ == incorrect_os_text(),
        },
        os@ == "Windows"@ ==> res is Ok && res->Ok_0@ == ".\\data\\"@ + filename@,
        os@ == "Linux"@ ==> res is Ok && res->Ok_0@ == "./data/"@ + filename@,
        os@ != "Windows"@ && os@ != "Linux"@ ==> res is Err && res->Err_0@
            == "Error: incorrect operating system"@,
{
    proof {
        reveal_strlit("Windows");
        reveal_strlit("Linux");
        assert("Windows"@.len() != "Linux"@.len());
    }
    if same_text(os, "Windows") {
        Ok(concat(".\\data\\", filename))
    } else if same_text(os, "Linux") {
        Ok(concat("./data/", filename))
    } else {
        Err(owned("Error: incorrect operating system"))
    }
}

} // verus!

verus! {

/// Each file of the data directory keeps its own name: the path of a file
/// ends with the file name, after a prefix that depends only on the system,
/// so two different names give two different paths.
pub proof fn lemma_data_paths_distinct(os: Seq<char>, a: Seq<char>, b: Seq<char>)
    ensures
        data_path_spec(os, a) matches Some(p) ==> p.subrange(p.len() - a.len(), p.len() as int)
            == a,
        titled_data_path_spec(os, a) matches Some(p) ==> p.subrange(
            p.len() - a.len(),
            p.len() as int,
        ) == a,
        a != b && data_path_spec(os, a) is Some ==> data_path_spec(os, a) != data_path_spec(os, b),
        a != b && titled_data_path_spec(os, a) is Some ==> titled_data_path_spec(os, a)
            != titled_data_path_spec(os, b),
{
    if let Some(p) = data_path_spec(os, a) {
        let pre = p.subrange(0, p.len() - a.len());
        assert(p.subrange(p.len() - a.len(), p.len() as int) =~= a);
        if let Some(q) = data_path_spec(os, b) {
            if p == q {
                assert(q.subrange(0, q.len() - b.len()) =~= pre);
                assert(b =~= q.subrange(q.len() - b.len(), q.len() as int));
            }
        }
    }
    if let Some(p) = titled_data_path_spec(os, a) {
        let pre = p.subrange(0, p.len() - a.len());
        assert(p.subrange(p.len() - a.len(), p.len() as int) =~= a);
        if let Some(q) = titled_data_path_spec(os, b) {
            if p == q {
                assert(q.subrange(0, q.len() - b.len()) =~= pre);
                assert(b =~= q.subrange(q.len() - b.len(), q.len() as int));
            }
        }
    }
}

} // verus!
