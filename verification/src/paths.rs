//! Construction of the raster file paths the pipeline reads and writes.
//!
//! Every intermediate raster lives in the scratch workspace; its path is a
//! pure function of the directory, the page prefix and the page index.

use vstd::prelude::*;
use crate::numtext::{dec_rep, decimal_string};

verus! {

/// `dir` and `name` joined with a single separator.
pub open spec fn joined_path(dir: Seq<char>, name: Seq<char>) -> Seq<char> {
    dir + "/"@ + name
}

/// The file name of one exported page raster: `{prefix}_[{index}].jpg`.
pub open spec fn page_file_name_spec(prefix: Seq<char>, index: nat) -> Seq<char> {
    prefix + "_["@ + dec_rep(index) + "].jpg"@
}

/// The file name of one combined diff raster: `diff_result_page_[{index}].png`.
pub open spec fn diff_file_name_spec(index: nat) -> Seq<char> {
    "diff_result_page_["@ + dec_rep(index) + "].png"@
}

/// Joins a directory and a file name with a single separator.
pub fn join_path(dir: &str, name: &str) -> (r: String)
    ensures
        r@ == joined_path(dir@, name@),
{
    let mut s = String::from_str(dir);
    s.append("/");
    s.append(name);
    proof {
        assert(s@ =~= joined_path(dir@, name@));
    }
    s
}

/// The file name under which page `index` of one exported document is stored.
pub fn page_file_name(prefix: &str, index: usize) -> (r: String)
    ensures
        r@ == page_file_name_spec(prefix@, index as nat),
{
    let mut s = String::from_str(prefix);
    s.append("_[");
    let digits = decimal_string(index);
    s.append(digits.as_str());
    s.append("].jpg");
    proof {
        assert(s@ =~= page_file_name_spec(prefix@, index as nat));
    }
    s
}

/// The file name under which the combined raster of page `index` is stored.
pub fn diff_file_name(index: usize) -> (r: String)
    ensures
        r@ == diff_file_name_spec(index as nat),
{
    let mut s = String::from_str("diff_result_page_[");
    let digits = decimal_string(index);
    s.append(digits.as_str());
    s.append("].png");
    proof {
        assert(s@ =~= diff_file_name_spec(index as nat));
    }
    s
}

} // verus!
