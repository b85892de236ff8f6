//! Conversion of AES-SIV-CMAC Wycheproof suites into raw test blobs.
//!
//! Only groups with the 512-bit (64-byte) combined key are kept. Each kept
//! case dumps its key, associated data, message, ciphertext and
//! expected-result byte, in that order.

use vstd::prelude::*;

use crate::wycheproof::{
    blobs_view, case_result, case_result_byte, clone_bytes, desc_chars, description, info_model,
    infos_model, str_eq, Case, Group, Suite, TestInfo,
};

verus! {

/// The one combined key size AES-SIV-CMAC is converted for, in bytes.
pub const AES_SIV_KEY_SIZE: u32 = 64;

/// A whole AES-SIV-CMAC Wycheproof suite.
#[derive(Debug)]
pub struct TestSuite {
    pub suite: Suite,
    pub test_groups: Vec<TestGroup>,
}

/// One AES-SIV-CMAC test group: a fixed key size, in bits.
#[derive(Debug)]
pub struct TestGroup {
    pub group: Group,
    pub key_size: u32,
    pub tests: Vec<TestCase>,
}

/// One AES-SIV-CMAC test case.
#[derive(Debug)]
pub struct TestCase {
    pub case: Case,
    pub key: Vec<u8>,
    pub aad: Vec<u8>,
    pub msg: Vec<u8>,
    pub ct: Vec<u8>,
}

/// The blobs and description one kept case converts to.
pub open spec fn case_model(alg: Seq<char>, tc: TestCase) -> (Seq<Seq<u8>>, Seq<char>) {
    (
        seq![tc.key@, tc.aad@, tc.msg@, tc.ct@, seq![case_result_byte(tc.case.result)]],
        desc_chars(alg, tc.case.case_id as int, tc.case.comment@),
    )
}

/// Whether a group carries the one supported key size.
pub open spec fn group_selected(g: TestGroup) -> bool {
    g.key_size / 8 == AES_SIV_KEY_SIZE
}

/// What one group converts to: every case in order, or nothing if skipped.
pub open spec fn group_models(alg: Seq<char>, g: TestGroup) -> Seq<(Seq<Seq<u8>>, Seq<char>)> {
    if group_selected(g) {
        Seq::new(g.tests@.len(), |i: int| case_model(alg, g.tests@[i]))
    } else {
        Seq::empty()
    }
}

/// What a whole suite converts to: the kept groups' cases, in order.
pub open spec fn suite_models(alg: Seq<char>, groups: Seq<TestGroup>) -> Seq<
    (Seq<Seq<u8>>, Seq<char>),
>
    decreases groups.len(),
{
    if groups.len() == 0 {
        Seq::empty()
    } else {
        suite_models(alg, groups.drop_last()) + group_models(alg, groups.last())
    }
}

/// Convert one parsed AES-SIV-CMAC suite: fails exactly when the suite's
/// algorithm is not the expected one, and otherwise yields, for every case
/// of every group with the supported key size, its blobs and description.
pub fn generator(suite: &TestSuite, algorithm: &str) -> (r: Option<Vec<TestInfo>>)
    ensures
        r is Some <==> algorithm@ == suite.suite.algorithm@,
        r matches Some(v) ==> infos_model(v@) == suite_models(
            suite.suite.algorithm@,
            suite.test_groups@,
        ),
{
    if !str_eq(algorithm, suite.suite.algorithm.as_str()) {
        return None;
    }
    let ghost alg = suite.suite.algorithm@;
    let ghost groups = suite.test_groups@;
    let mut infos: Vec<TestInfo> = Vec::new();
    let ngroups = suite.test_groups.len();
    proof {
        assert(groups.take(0) =~= Seq::<TestGroup>::empty());
        assert(infos_model(infos@) =~= suite_models(alg, groups.take(0)));
    }
    for gi in 0..ngroups
        invariant
            ngroups == groups.len(),
            suite.test_groups@ == groups,
            alg == suite.suite.algorithm@,
            infos_model(infos@) == suite_models(alg, groups.take(gi as int)),
    {
        let g = &suite.test_groups[gi];
        if g.key_size / 8 == AES_SIV_KEY_SIZE {
            let ntests = g.tests.len();
            for ti in 0..ntests
                invariant
                    ngroups == groups.len(),
                    gi < ngroups,
                    suite.test_groups@ == groups,
                    alg == suite.suite.algorithm@,
                    g == &groups[gi as int],
                    ntests == g.tests@.len(),
                    infos_model(infos@) == suite_models(alg, groups.take(gi as int)) + Seq::new(
                        ti as nat,
                        |i: int| case_model(alg, g.tests@[i]),
                    ),
            {
                let tc = &g.tests[ti];
                let mut result_byte: Vec<u8> = Vec::new();
                result_byte.push(case_result(&tc.case));
                let mut data: Vec<Vec<u8>> = Vec::new();
                data.push(clone_bytes(&tc.key));
                data.push(clone_bytes(&tc.aad));
                data.push(clone_bytes(&tc.msg));
                data.push(clone_bytes(&tc.ct));
                data.push(result_byte);
                let desc = description(&suite.suite, &tc.case);
                let info = TestInfo { data, desc };
                proof {
                    assert(info.data@.len() == 5);
                    assert(info.data@[0]@ == tc.key@);
                    assert(info.data@[1]@ == tc.aad@);
                    assert(info.data@[2]@ == tc.msg@);
                    assert(info.data@[3]@ == tc.ct@);
                    assert(info.data@[4]@ =~= seq![case_result_byte(tc.case.result)]);
                    assert(blobs_view(info.data@) =~= case_model(alg, g.tests@[ti as int]).0);
                    assert(info_model(info) == case_model(alg, g.tests@[ti as int]));
                }
                let ghost old_infos = infos@;
                infos.push(info);
                proof {
                    assert(infos_model(infos@) =~= infos_model(old_infos).push(info_model(info)));
                    assert(Seq::new((ti + 1) as nat, |i: int| case_model(alg, g.tests@[i]))
                        =~= Seq::new(ti as nat, |i: int| case_model(alg, g.tests@[i])).push(
                        case_model(alg, g.tests@[ti as int]),
                    ));
                    assert(suite_models(alg, groups.take(gi as int)) + Seq::new(
                        (ti + 1) as nat,
                        |i: int| case_model(alg, g.tests@[i]),
                    ) =~= (suite_models(alg, groups.take(gi as int)) + Seq::new(
                        ti as nat,
                        |i: int| case_model(alg, g.tests@[i]),
                    )).push(case_model(alg, g.tests@[ti as int])));
                }
            }
            proof {
                assert(group_selected(groups[gi as int]));
                assert(Seq::new(ntests as nat, |i: int| case_model(alg, g.tests@[i]))
                    =~= group_models(alg, groups[gi as int]));
                assert(groups.take(gi + 1).drop_last() =~= groups.take(gi as int));
                assert(groups.take(gi + 1).last() == groups[gi as int]);
            }
        } else {
            proof {
                assert(!group_selected(groups[gi as int]));
                assert(groups.take(gi + 1).drop_last() =~= groups.take(gi as int));
                assert(groups.take(gi + 1).last() == groups[gi as int]);
                assert(infos_model(infos@) =~= suite_models(alg, groups.take(gi + 1)));
            }
        }
    }
    proof {
        assert(groups.take(ngroups as int) =~= groups);
    }
    Some(infos)
}

} // verus!
