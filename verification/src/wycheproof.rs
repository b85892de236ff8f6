//! Common shapes of Wycheproof test-vector suites, and the conversions the
//! raw-dump tooling applies to them.
//!
//! A suite holds groups, a group holds cases; every case carries an expected
//! result and a description. The logic here turns parsed suites into raw test
//! blobs and one-line descriptions; reading the JSON files and writing the
//! output files is the surrounding tool's business, not this library's.

use vstd::prelude::*;

use std::collections::HashMap;
use vstd::string::StringSliceAdditionalSpecFns;

verus! {

/// The common elements of the top-level object in a Wycheproof file.
#[derive(Debug)]
pub struct Suite {
    pub algorithm: String,
    pub generator_version: String,
    pub number_of_tests: i32,
    pub notes: HashMap<String, String>,
}

/// The common elements of one test group in a Wycheproof suite.
#[derive(Debug)]
pub struct Group {
    pub group_type: String,
}

/// The possible result values of a Wycheproof test case.
#[derive(Clone, Copy, Debug, PartialEq, Eq, Structural)]
pub enum CaseResult {
    /// The case is valid: the crypto operation should succeed.
    Valid,
    /// The case is invalid: the crypto operation should fail.
    Invalid,
    /// The case is valid but uses weak parameters: the operation may succeed
    /// or fail depending on how strict the library under test is.
    Acceptable,
}

/// The common elements of one test case in a Wycheproof group.
#[derive(Debug)]
pub struct Case {
    pub case_id: i32,
    pub comment: String,
    pub result: CaseResult,
    pub flags: Vec<String>,
}

/// One converted test: its raw data blobs and a one-line description.
#[derive(Debug)]
pub struct TestInfo {
    /// Raw data for the test.
    pub data: Vec<Vec<u8>>,
    /// Test case description.
    pub desc: String,
}

/// The byte runs a list of blobs holds, in order.
pub open spec fn blobs_view(d: Seq<Vec<u8>>) -> Seq<Seq<u8>> {
    Seq::new(d.len(), |i: int| d[i]@)
}

/// The abstract content of a [`TestInfo`]: its blobs and its description.
pub open spec fn info_model(i: TestInfo) -> (Seq<Seq<u8>>, Seq<char>) {
    (blobs_view(i.data@), i.desc@)
}

/// The abstract content of a run of [`TestInfo`] values.
pub open spec fn infos_model(v: Seq<TestInfo>) -> Seq<(Seq<Seq<u8>>, Seq<char>)> {
    Seq::new(v.len(), |i: int| info_model(v[i]))
}

/// A copy of a byte run.
pub fn clone_bytes(v: &Vec<u8>) -> (r: Vec<u8>)
    ensures
        r@ == v@,
{
    vstd::slice::slice_to_vec(v.as_slice())
}

/// The byte each case result is dumped as.
pub open spec fn case_result_byte(r: CaseResult) -> u8 {
    match r {
        CaseResult::Valid => 0,
        CaseResult::Invalid => 1,
        CaseResult::Acceptable => 2,
    }
}

/// The canonical text of each case result.
pub open spec fn case_result_chars(r: CaseResult) -> Seq<char> {
    match r {
        CaseResult::Valid => "valid"@,
        CaseResult::Invalid => "invalid"@,
        CaseResult::Acceptable => "acceptable"@,
    }
}

impl CaseResult {
    /// The canonical text of this result value.
    pub fn as_str(&self) -> (r: &'static str)
        ensures
            r@ == case_result_chars(*self),
    {
        match self {
            CaseResult::Valid => "valid",
            CaseResult::Invalid => "invalid",
            CaseResult::Acceptable => "acceptable",
        }
    }
}

/// What parsing a result string yields.
pub open spec fn spec_parse_case_result(s: Seq<char>) -> Option<CaseResult> {
    if s == "valid"@ {
        Some(CaseResult::Valid)
    } else if s == "invalid"@ {
        Some(CaseResult::Invalid)
    } else if s == "acceptable"@ {
        Some(CaseResult::Acceptable)
    } else {
        None
    }
}

/// Whether two byte runs hold the same bytes.
pub fn bytes_eq(a: &[u8], b: &[u8]) -> (r: bool)
    ensures
        r == (a@ == b@),
{
    if a.len() != b.len() {
        return false;
    }
    let n = a.len();
    for i in 0..n
        invariant
            n == a@.len(),
            n == b@.len(),
            forall|j: int| 0 <= j < i ==> a@[j] == b@[j],
    {
        if a[i] != b[i] {
            return false;
        }
    }
    proof { assert(a@ =~= b@); }
    true
}

/// Whether two strings are equal, decided on their UTF-8 bytes.
pub fn str_eq(a: &str, b: &str) -> (r: bool)
    ensures
        r == (a@ == b@),
{
    let r = bytes_eq(a.as_bytes(), b.as_bytes());
    proof {
        if a.spec_bytes() == b.spec_bytes() {
            vstd::utf8::encode_utf8_decode_utf8(a@);
            vstd::utf8::encode_utf8_decode_utf8(b@);
        }
    }
    r
}

/// Parse a Wycheproof result string into its enum value; anything but the
/// three known texts is rejected.
pub fn parse_case_result(s: &str) -> (r: Option<CaseResult>)
    ensures
        r == spec_parse_case_result(s@),
{
    if str_eq(s, "valid") {
        Some(CaseResult::Valid)
    } else if str_eq(s, "invalid") {
        Some(CaseResult::Invalid)
    } else if str_eq(s, "acceptable") {
        Some(CaseResult::Acceptable)
    } else {
        None
    }
}

/// The single byte a case's expected result is dumped as.
pub fn case_result(case: &Case) -> (r: u8)
    ensures
        r == case_result_byte(case.result),
{
    match case.result {
        CaseResult::Valid => 0,
        CaseResult::Invalid => 1,
        CaseResult::Acceptable => 2,
    }
}

/// The digit character of one decimal digit.
pub open spec fn dec_digit(d: int) -> char {
    if d == 0 { '0' }
    else if d == 1 { '1' }
    else if d == 2 { '2' }
    else if d == 3 { '3' }
    else if d == 4 { '4' }
    else if d == 5 { '5' }
    else if d == 6 { '6' }
    else if d == 7 { '7' }
    else if d == 8 { '8' }
    else { '9' }
}

/// The decimal digits of a non-negative number, most significant first.
pub open spec fn dec_chars(n: nat) -> Seq<char>
    decreases n,
{
    if n < 10 {
        seq![dec_digit(n as int)]
    } else {
        dec_chars(n / 10).push(dec_digit((n % 10) as int))
    }
}

/// The decimal text of a number, with a leading minus sign when negative.
pub open spec fn int_chars(n: int) -> Seq<char> {
    if n < 0 {
        seq!['-'] + dec_chars((-n) as nat)
    } else {
        dec_chars(n as nat)
    }
}

/// One decimal digit as text.
fn digit_str(d: u32) -> (r: &'static str)
    requires
        d < 10,
    ensures
        r@ == seq![dec_digit(d as int)],
{
    if d == 0 {
        proof { reveal_strlit("0"); }
        let s = "0";
        proof { assert(s@ =~= seq![dec_digit(d as int)]); }
        s
    } else if d == 1 {
        proof { reveal_strlit("1"); }
        let s = "1";
        proof { assert(s@ =~= seq![dec_digit(d as int)]); }
        s
    } else if d == 2 {
        proof { reveal_strlit("2"); }
        let s = "2";
        proof { assert(s@ =~= seq![dec_digit(d as int)]); }
        s
    } else if d == 3 {
        proof { reveal_strlit("3"); }
        let s = "3";
        proof { assert(s@ =~= seq![dec_digit(d as int)]); }
        s
    } else if d == 4 {
        proof { reveal_strlit("4"); }
        let s = "4";
        proof { assert(s@ =~= seq![dec_digit(d as int)]); }
        s
    } else if d == 5 {
        proof { reveal_strlit("5"); }
        let s = "5";
        proof { assert(s@ =~= seq![dec_digit(d as int)]); }
        s
    } else if d == 6 {
        proof { reveal_strlit("6"); }
        let s = "6";
        proof { assert(s@ =~= seq![dec_digit(d as int)]); }
        s
    } else if d == 7 {
        proof { reveal_strlit("7"); }
        let s = "7";
        proof { assert(s@ =~= seq![dec_digit(d as int)]); }
        s
    } else if d == 8 {
        proof { reveal_strlit("8"); }
        let s = "8";
        proof { assert(s@ =~= seq![dec_digit(d as int)]); }
        s
    } else {
        proof { reveal_strlit("9"); }
        let s = "9";
        proof { assert(s@ =~= seq![dec_digit(d as int)]); }
        s
    }
}

/// The decimal text of a non-negative number.
pub fn dec_string(n: u32) -> (r: String)
    ensures
        r@ == dec_chars(n as nat),
    decreases n,
{
    if n < 10 {
        digit_str(n).to_owned()
    } else {
        let mut s = dec_string(n / 10);
        s.append(digit_str(n % 10));
        proof {
            assert(dec_chars((n / 10) as nat) + seq![dec_digit((n % 10) as int)] =~= dec_chars(
                n as nat,
            ));
        }
        s
    }
}

/// The decimal text of a signed number.
pub fn int_string(n: i32) -> (r: String)
    ensures
        r@ == int_chars(n as int),
{
    if n < 0 {
        let mag = (-(n as i64)) as u32;
        let mut s = "-".to_owned();
        proof {
            reveal_strlit("-");
            assert(s@ =~= seq!['-']);
        }
        let digits = dec_string(mag);
        s.append(digits.as_str());
        proof { assert(seq!['-'] + dec_chars(mag as nat) =~= int_chars(n as int)); }
        s
    } else {
        dec_string(n as u32)
    }
}

/// The one-line description of a case: the suite's algorithm, the case
/// number, then the case's comment.
pub open spec fn desc_chars(alg: Seq<char>, id: int, comment: Seq<char>) -> Seq<char> {
    alg + " case "@ + int_chars(id) + ": "@ + comment
}

/// Render a case's one-line description.
pub fn description(suite: &Suite, case: &Case) -> (r: String)
    ensures
        r@ == desc_chars(suite.algorithm@, case.case_id as int, case.comment@),
{
    let mut s = suite.algorithm.as_str().to_owned();
    s.append(" case ");
    let num = int_string(case.case_id);
    s.append(num.as_str());
    s.append(": ");
    s.append(case.comment.as_str());
    proof {
        assert(s@ =~= desc_chars(suite.algorithm@, case.case_id as int, case.comment@));
    }
    s
}

} // verus!
