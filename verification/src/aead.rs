//! Conversion of AEAD Wycheproof suites (AES-GCM and its variants,
//! ChaCha20-Poly1305, XChaCha20-Poly1305) into raw test blobs.
//!
//! Groups whose key or nonce size the target algorithm does not use are
//! skipped. Each kept case dumps its key, nonce, associated data, message,
//! ciphertext-with-tag, and expected-result byte, in that order.

use vstd::prelude::*;

use crate::wycheproof::{
    blobs_view, case_result, case_result_byte, clone_bytes, desc_chars, description, info_model,
    infos_model, str_eq, Case, Group, Suite, TestInfo,
};

verus! {

/// A whole AEAD Wycheproof suite.
#[derive(Debug)]
pub struct TestSuite {
    pub suite: Suite,
    pub test_groups: Vec<TestGroup>,
}

/// One AEAD test group: fixed nonce, key and tag sizes, in bits.
#[derive(Debug)]
pub struct TestGroup {
    pub group: Group,
    pub iv_size: u32,
    pub key_size: u32,
    pub tag_size: u32,
    pub tests: Vec<TestCase>,
}

/// One AEAD test case.
#[derive(Debug)]
pub struct TestCase {
    pub case: Case,
    pub aad: Vec<u8>,
    pub ct: Vec<u8>,
    pub iv: Vec<u8>,
    pub key: Vec<u8>,
    pub msg: Vec<u8>,
    pub tag: Vec<u8>,
}

/// The blobs and description one kept case converts to.
pub open spec fn case_model(alg: Seq<char>, tc: TestCase) -> (Seq<Seq<u8>>, Seq<char>) {
    (
        seq![
            tc.key@,
            tc.iv@,
            tc.aad@,
            tc.msg@,
            tc.ct@ + tc.tag@,
            seq![case_result_byte(tc.case.result)],
        ],
        desc_chars(alg, tc.case.case_id as int, tc.case.comment@),
    )
}

/// Whether a group's key size (in bytes) is one the algorithm uses and its
/// nonce size (in bytes) is the algorithm's.
pub open spec fn group_selected(g: TestGroup, key_sizes: Seq<u32>, iv_size: u32) -> bool {
    key_sizes.contains(g.key_size / 8) && g.iv_size / 8 == iv_size
}

/// What one group converts to: every case in order, or nothing if skipped.
pub open spec fn group_models(alg: Seq<char>, g: TestGroup, key_sizes: Seq<u32>, iv_size: u32) -> Seq<
    (Seq<Seq<u8>>, Seq<char>),
> {
    if group_selected(g, key_sizes, iv_size) {
        Seq::new(g.tests@.len(), |i: int| case_model(alg, g.tests@[i]))
    } else {
        Seq::empty()
    }
}

/// What a whole suite converts to: the kept groups' cases, in order.
pub open spec fn suite_models(
    alg: Seq<char>,
    groups: Seq<TestGroup>,
    key_sizes: Seq<u32>,
    iv_size: u32,
) -> Seq<(Seq<Seq<u8>>, Seq<char>)>
    decreases groups.len(),
{
    if groups.len() == 0 {
        Seq::empty()
    } else {
        suite_models(alg, groups.drop_last(), key_sizes, iv_size) + group_models(
            alg,
            groups.last(),
            key_sizes,
            iv_size,
        )
    }
}

/// Whether a value occurs in a slice.
fn contains_u32(xs: &[u32], x: u32) -> (r: bool)
    ensures
        r == xs@.contains(x),
{
    let n = xs.len();
    for i in 0..n
        invariant
            n == xs@.len(),
            forall|j: int| 0 <= j < i ==> xs@[j] != x,
    {
        if xs[i] == x {
            return true;
        }
    }
    proof {
        assert(forall|j: int| 0 <= j < xs@.len() ==> xs@[j] != x);
    }
    false
}

/// Convert one parsed AEAD suite: fails exactly when the suite's algorithm
/// is not the expected one, and otherwise yields, for every case of every
/// group with a matching key and nonce size, its blobs and description.
fn generator(suite: &TestSuite, algorithm: &str, key_sizes: &[u32], iv_size: u32) -> (r: Option<
    Vec<TestInfo>,
>)
    ensures
        r is Some <==> algorithm@ == suite.suite.algorithm@,
        r matches Some(v) ==> infos_model(v@) == suite_models(
            suite.suite.algorithm@,
            suite.test_groups@,
            key_sizes@,
            iv_size,
        ),
{
    if !str_eq(algorithm, suite.suite.algorithm.as_str()) {
        return None;
    }
    let ghost alg = suite.suite.algorithm@;
    let ghost groups = suite.test_groups@;
    let mut infos: Vec<TestInfo> = Vec::new();
    let ngroups = suite.test_groups.len();
    proof {
        assert(groups.take(0) =~= Seq::<TestGroup>::empty());
        assert(infos_model(infos@) =~= suite_models(alg, groups.take(0), key_sizes@, iv_size));
    }
    for gi in 0..ngroups
        invariant
            ngroups == groups.len(),
            suite.test_groups@ == groups,
            alg == suite.suite.algorithm@,
            infos_model(infos@) == suite_models(alg, groups.take(gi as int), key_sizes@, iv_size),
    {
        let g = &suite.test_groups[gi];
        if contains_u32(key_sizes, g.key_size / 8) && g.iv_size / 8 == iv_size {
            let ntests = g.tests.len();
            for ti in 0..ntests
                invariant
                    ngroups == groups.len(),
                    gi < ngroups,
                    suite.test_groups@ == groups,
                    alg == suite.suite.algorithm@,
                    g == &groups[gi as int],
                    ntests == g.tests@.len(),
                    infos_model(infos@) == suite_models(alg, groups.take(gi as int), key_sizes@,
                        iv_size) + Seq::new(ti as nat, |i: int| case_model(alg, g.tests@[i])),
            {
                let tc = &g.tests[ti];
                let mut combined_ct: Vec<u8> = Vec::new();
                combined_ct.extend_from_slice(tc.ct.as_slice());
                combined_ct.extend_from_slice(tc.tag.as_slice());
                let mut result_byte: Vec<u8> = Vec::new();
                result_byte.push(case_result(&tc.case));
                let mut data: Vec<Vec<u8>> = Vec::new();
                data.push(clone_bytes(&tc.key));
                data.push(clone_bytes(&tc.iv));
                data.push(clone_bytes(&tc.aad));
                data.push(clone_bytes(&tc.msg));
                data.push(combined_ct);
                data.push(result_byte);
                let desc = description(&suite.suite, &tc.case);
                let info = TestInfo { data, desc };
                proof {
                    assert(info.data@.len() == 6);
                    assert(info.data@[0]@ == tc.key@);
                    assert(info.data@[1]@ == tc.iv@);
                    assert(info.data@[2]@ == tc.aad@);
                    assert(info.data@[3]@ == tc.msg@);
                    assert(info.data@[4]@ == tc.ct@ + tc.tag@);
                    assert(info.data@[5]@ =~= seq![case_result_byte(tc.case.result)]);
                    assert(blobs_view(info.data@) =~= case_model(alg, g.tests@[ti as int]).0);
                    assert(info_model(info) == case_model(alg, g.tests@[ti as int]));
                }
                let ghost old_infos = infos@;
                infos.push(info);
                proof {
                    assert(infos_model(infos@) =~= infos_model(old_infos).push(info_model(info)));
                    assert(Seq::new((ti + 1) as nat, |i: int| case_model(alg, g.tests@[i]))
                        =~= Seq::new(ti as nat, |i: int| case_model(alg, g.tests@[i])).push(
                        case_model(alg, g.tests@[ti as int]),
                    ));
                    assert(suite_models(alg, groups.take(gi as int), key_sizes@, iv_size)
                        + Seq::new((ti + 1) as nat, |i: int| case_model(alg, g.tests@[i]))
                        =~= (suite_models(alg, groups.take(gi as int), key_sizes@, iv_size)
                        + Seq::new(ti as nat, |i: int| case_model(alg, g.tests@[i]))).push(
                        case_model(alg, g.tests@[ti as int]),
                    ));
                }
            }
            proof {
                assert(group_selected(groups[gi as int], key_sizes@, iv_size));
                assert(Seq::new(ntests as nat, |i: int| case_model(alg, g.tests@[i]))
                    =~= group_models(alg, groups[gi as int], key_sizes@, iv_size));
                assert(groups.take(gi + 1).drop_last() =~= groups.take(gi as int));
                assert(groups.take(gi + 1).last() == groups[gi as int]);
            }
        } else {
            proof {
                assert(!group_selected(groups[gi as int], key_sizes@, iv_size));
                assert(groups.take(gi + 1).drop_last() =~= groups.take(gi as int));
                assert(groups.take(gi + 1).last() == groups[gi as int]);
                assert(infos_model(infos@) =~= suite_models(alg, groups.take(gi + 1), key_sizes@,
                    iv_size));
            }
        }
    }
    proof {
        assert(groups.take(ngroups as int) =~= groups);
    }
    Some(infos)
}

/// Convert an AES-GCM or AES-GCM-SIV suite: 128- and 256-bit keys, 96-bit
/// nonces.
pub fn aes_gcm_variant(suite: &TestSuite, algorithm: &str) -> (r: Option<Vec<TestInfo>>)
    ensures
        r is Some <==> algorithm@ == suite.suite.algorithm@,
        r matches Some(v) ==> infos_model(v@) == suite_models(
            suite.suite.algorithm@,
            suite.test_groups@,
            seq![16u32, 32u32],
            12,
        ),
{
    let key_sizes: [u32; 2] = [16, 32];
    let r = generator(suite, algorithm, key_sizes.as_slice(), 12);
    proof {
        assert(key_sizes@ =~= seq![16u32, 32u32]);
    }
    r
}

/// Convert a ChaCha20-Poly1305 suite: 256-bit keys, 96-bit nonces.
pub fn chacha20_poly1305(suite: &TestSuite, algorithm: &str) -> (r: Option<Vec<TestInfo>>)
    ensures
        r is Some <==> algorithm@ == suite.suite.algorithm@,
        r matches Some(v) ==> infos_model(v@) == suite_models(
            suite.suite.algorithm@,
            suite.test_groups@,
            seq![32u32],
            12,
        ),
{
    let key_sizes: [u32; 1] = [32];
    let r = generator(suite, algorithm, key_sizes.as_slice(), 12);
    proof {
        assert(key_sizes@ =~= seq![32u32]);
    }
    r
}

/// Convert an XChaCha20-Poly1305 suite: 256-bit keys, 192-bit nonces.
pub fn xchacha20_poly1305(suite: &TestSuite, algorithm: &str) -> (r: Option<Vec<TestInfo>>)
    ensures
        r is Some <==> algorithm@ == suite.suite.algorithm@,
        r matches Some(v) ==> infos_model(v@) == suite_models(
            suite.suite.algorithm@,
            suite.test_groups@,
            seq![32u32],
            24,
        ),
{
    let key_sizes: [u32; 1] = [32];
    let r = generator(suite, algorithm, key_sizes.as_slice(), 24);
    proof {
        assert(key_sizes@ =~= seq![32u32]);
    }
    r
}

} // verus!
