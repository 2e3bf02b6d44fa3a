//! Where the Flow parser's JavaScript is fetched from: the npm package,
//! its version, and the file taken out of its tarball.

use vstd::prelude::*;
use crate::strings::{str_equal, to_owned_string};

verus! {

/// The npm package that holds the Flow parser.
pub const NPM_PACKAGE: &'static str = "flow-parser";

/// The version of the package that is fetched.
pub const NPM_VERSION: &'static str = "0.266.1";

/// The parser's path inside the package tarball.
pub const ENTRY_PATH: &'static str = "package/flow_parser.js";

/// The name the parser is stored under.
pub const OUT_FILENAME: &'static str = "flow_parser.js";

/// The registry URL of the package tarball.
pub open spec fn tarball_url_text() -> Seq<char> {
    "https://registry.npmjs.org/"@ + NPM_PACKAGE@ + "/-/"@ + NPM_PACKAGE@ + "-"@ + NPM_VERSION@ + ".tgz"@
}

/// The registry URL of the package tarball.
pub fn tarball_url() -> (r: String)
    ensures
        r@ == tarball_url_text(),
{
    let mut s = to_owned_string("https://registry.npmjs.org/");
    s.append(NPM_PACKAGE);
    s.append("/-/");
    s.append(NPM_PACKAGE);
    s.append("-");
    s.append(NPM_VERSION);
    s.append(".tgz");
    s
}

/// Whether a tarball entry, by its path, is the parser.
pub fn is_parser_entry(path: &str) -> (r: bool)
    ensures
        r == (path@ == ENTRY_PATH@),
{
    str_equal(path, ENTRY_PATH)
}

} // verus!
