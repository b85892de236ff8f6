//! Conversion of AES-CMAC Wycheproof suites into raw test blobs.
//!
//! Every case is kept, but the suite is rejected as a whole when any case's
//! key does not match its group's declared key size, or when a group's tag
//! size is not a whole byte count. Each case dumps its key, message, tag and
//! expected-result byte, in that order.

use vstd::prelude::*;

use crate::wycheproof::{
    blobs_view, case_result, case_result_byte, clone_bytes, desc_chars, description, info_model,
    infos_model, str_eq, Case, Group, Suite, TestInfo,
};

verus! {

/// A whole AES-CMAC Wycheproof suite.
#[derive(Debug)]
pub struct TestSuite {
    pub suite: Suite,
    pub test_groups: Vec<TestGroup>,
}

/// One AES-CMAC test group: fixed key and tag sizes, in bits.
#[derive(Debug)]
pub struct TestGroup {
    pub group: Group,
    pub key_size: u32,
    pub tag_size: u32,
    pub tests: Vec<TestCase>,
}

/// One AES-CMAC test case.
#[derive(Debug)]
pub struct TestCase {
    pub case: Case,
    pub key: Vec<u8>,
    pub msg: Vec<u8>,
    pub tag: Vec<u8>,
}

/// The blobs and description one case converts to.
pub open spec fn case_model(alg: Seq<char>, tc: TestCase) -> (Seq<Seq<u8>>, Seq<char>) {
    (
        seq![tc.key@, tc.msg@, tc.tag@, seq![case_result_byte(tc.case.result)]],
        desc_chars(alg, tc.case.case_id as int, tc.case.comment@),
    )
}

/// The consistency a case must have: the key holds exactly the group's
/// declared bit count, and the tag size is a whole byte count.
pub open spec fn case_ok(g: TestGroup, tc: TestCase) -> bool {
    tc.key@.len() * 8 == g.key_size as int && g.tag_size % 8 == 0
}

/// Whether every case of every group is consistent.
pub open spec fn suite_ok(groups: Seq<TestGroup>) -> bool {
    forall|i: int, j: int|
        0 <= i < groups.len() && 0 <= j < groups[i].tests@.len() ==> case_ok(
            groups[i],
            #[trigger] groups[i].tests@[j],
        )
}

/// What one group converts to: every case, in order.
pub open spec fn group_models(alg: Seq<char>, g: TestGroup) -> Seq<(Seq<Seq<u8>>, Seq<char>)> {
    Seq::new(g.tests@.len(), |i: int| case_model(alg, g.tests@[i]))
}

/// What a whole suite converts to: every group's cases, in order.
pub open spec fn suite_models(alg: Seq<char>, groups: Seq<TestGroup>) -> Seq<
    (Seq<Seq<u8>>, Seq<char>),
>
    decreases groups.len(),
{
    if groups.len() == 0 {
        Seq::empty()
    } else {
        suite_models(alg, groups.drop_last()) + group_models(alg, groups.last())
    }
}

/// Convert one parsed AES-CMAC suite: fails exactly when the suite's
/// algorithm is not the expected one or some case is inconsistent, and
/// otherwise yields every case's blobs and description, in order.
pub fn generator(suite: &TestSuite, algorithm: &str) -> (r: Option<Vec<TestInfo>>)
    ensures
        r is Some <==> (algorithm@ == suite.suite.algorithm@ && suite_ok(suite.test_groups@)),
        r matches Some(v) ==> infos_model(v@) == suite_models(
            suite.suite.algorithm@,
            suite.test_groups@,
        ),
{
    if !str_eq(algorithm, suite.suite.algorithm.as_str()) {
        return None;
    }
    let ghost alg = suite.suite.algorithm@;
    let ghost groups = suite.test_groups@;
    let mut infos: Vec<TestInfo> = Vec::new();
    let ngroups = suite.test_groups.len();
    proof {
        assert(groups.take(0) =~= Seq::<TestGroup>::empty());
        assert(infos_model(infos@) =~= suite_models(alg, groups.take(0)));
    }
    for gi in 0..ngroups
        invariant
            ngroups == groups.len(),
            suite.test_groups@ == groups,
            alg == suite.suite.algorithm@,
            infos_model(infos@) == suite_models(alg, groups.take(gi as int)),
            forall|i: int, j: int|
                0 <= i < gi && 0 <= j < groups[i].tests@.len() ==> case_ok(
                    groups[i],
                    #[trigger] groups[i].tests@[j],
                ),
    {
        let g = &suite.test_groups[gi];
        let ntests = g.tests.len();
        for ti in 0..ntests
            invariant
                ngroups == groups.len(),
                gi < ngroups,
                suite.test_groups@ == groups,
                alg == suite.suite.algorithm@,
                g == &groups[gi as int],
                ntests == g.tests@.len(),
                infos_model(infos@) == suite_models(alg, groups.take(gi as int)) + Seq::new(
                    ti as nat,
                    |i: int| case_model(alg, g.tests@[i]),
                ),
                forall|i: int, j: int|
                    0 <= i < gi && 0 <= j < groups[i].tests@.len() ==> case_ok(
                        groups[i],
                        #[trigger] groups[i].tests@[j],
                    ),
                forall|j: int| 0 <= j < ti ==> case_ok(groups[gi as int], #[trigger] g.tests@[j]),
        {
            let tc = &g.tests[ti];
            let key_ok = g.key_size % 8 == 0 && tc.key.len() == (g.key_size / 8) as usize;
            if !(key_ok && g.tag_size % 8 == 0) {
                proof {
                    assert(!case_ok(groups[gi as int], groups[gi as int].tests@[ti as int]));
                    assert(!suite_ok(groups));
                }
                return None;
            }
            let mut result_byte: Vec<u8> = Vec::new();
            result_byte.push(case_result(&tc.case));
            let mut data: Vec<Vec<u8>> = Vec::new();
            data.push(clone_bytes(&tc.key));
            data.push(clone_bytes(&tc.msg));
            data.push(clone_bytes(&tc.tag));
            data.push(result_byte);
            let desc = description(&suite.suite, &tc.case);
            let info = TestInfo { data, desc };
            proof {
                assert(info.data@.len() == 4);
                assert(info.data@[0]@ == tc.key@);
                assert(info.data@[1]@ == tc.msg@);
                assert(info.data@[2]@ == tc.tag@);
                assert(info.data@[3]@ =~= seq![case_result_byte(tc.case.result)]);
                assert(blobs_view(info.data@) =~= case_model(alg, g.tests@[ti as int]).0);
                assert(info_model(info) == case_model(alg, g.tests@[ti as int]));
            }
            let ghost old_infos = infos@;
            infos.push(info);
            proof {
                assert(infos_model(infos@) =~= infos_model(old_infos).push(info_model(info)));
                assert(Seq::new((ti + 1) as nat, |i: int| case_model(alg, g.tests@[i])) =~= Seq::new(
                    ti as nat,
                    |i: int| case_model(alg, g.tests@[i]),
                ).push(case_model(alg, g.tests@[ti as int])));
                assert(suite_models(alg, groups.take(gi as int)) + Seq::new(
                    (ti + 1) as nat,
                    |i: int| case_model(alg, g.tests@[i]),
                ) =~= (suite_models(alg, groups.take(gi as int)) + Seq::new(
                    ti as nat,
                    |i: int| case_model(alg, g.tests@[i]),
                )).push(case_model(alg, g.tests@[ti as int])));
            }
        }
        proof {
            assert(Seq::new(ntests as nat, |i: int| case_model(alg, g.tests@[i])) =~= group_models(
                alg,
                groups[gi as int],
            ));
            assert(groups.take(gi + 1).drop_last() =~= groups.take(gi as int));
            assert(groups.take(gi + 1).last() == groups[gi as int]);
        }
    }
    proof {
        assert(groups.take(ngroups as int) =~= groups);
    }
    Some(infos)
}

} // verus!
