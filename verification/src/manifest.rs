//! The remote version manifest: a JSON object whose field `versions`
//! holds an object, the key set of which is the set of known version
//! names. The names are sorted ascending lexicographically; the latest
//! version is the last one after sorting, and an empty manifest yields
//! an error rather than a panic.

use vstd::multiset::Multiset;
use vstd::prelude::*;

use crate::strutil::{
    lemma_lex_leq_refl, lemma_lex_leq_total, lemma_lex_leq_trans, lex_leq, str_lex_leq,
};

verus! {

broadcast use vstd::seq_lib::group_to_multiset_ensures;

/// The version names in the object at field `versions` of the JSON
/// text, in the key order serde_json yields them; nothing when the
/// text is not JSON or holds no such object. A function of the text
/// alone.
pub uninterp spec fn manifest_versions(raw: Seq<char>) -> Option<Seq<Seq<char>>>;

/// The names of a list of version strings.
pub open spec fn names_view(v: Seq<String>) -> Seq<Seq<char>> {
    v.map_values(|s: String| s@)
}

/// Relies on serde_json::from_str::<Value>, Value::get, Value::as_object
/// and Map::keys: parses the text as JSON and hands out the keys of the
/// object at top-level field "versions", or nothing when the text is not
/// valid JSON, the field is missing, or it is not an object. The keys of
/// serde_json's default map come out sorted, but no order is assumed
/// here; the result depends on the text alone.
#[verifier::external_body]
fn manifest_version_keys(raw: &str) -> (r: Option<Vec<String>>)
    ensures
        match r {
            Some(ks) => manifest_versions(raw@) == Some(names_view(ks@)),
            None => manifest_versions(raw@) is None,
        },
{
    let value: serde_json::Value = match serde_json::from_str(raw) {
        Ok(v) => v,
        Err(_) => return None,
    };
    let versions = match value.get("versions") {
        Some(v) => v,
        None => return None,
    };
    match versions.as_object() {
        Some(obj) => Some(obj.keys().cloned().collect()),
        None => None,
    }
}

/// Why no latest version could be produced from the manifest.
#[derive(Clone, Copy, Debug, PartialEq, Eq, Structural)]
pub enum ManifestError {
    /// The fetched text is not JSON or holds no `versions` object.
    Unparseable,
    /// The `versions` object names no version at all.
    Empty,
    /// The fetch itself failed before any text arrived.
    Transport,
}

/// Version names in ascending lexicographic order.
pub open spec fn sorted_lex_strings(v: Seq<String>) -> bool {
    forall|i: int, j: int| 0 <= i < j < v.len() ==> lex_leq(v[i]@, v[j]@)
}

proof fn lemma_names_view_push(v: Seq<String>, x: String)
    ensures
        names_view(v.push(x)) =~= names_view(v).push(x@),
{
}

proof fn lemma_names_view_remove(v: Seq<String>, i: int)
    requires
        0 <= i < v.len(),
    ensures
        names_view(v.remove(i)) =~= names_view(v).remove(i),
{
}

/// Sort version names ascending; the same names come out that went in.
fn sort_strings(input: Vec<String>) -> (r: Vec<String>)
    ensures
        names_view(r@).to_multiset() == names_view(input@).to_multiset(),
        sorted_lex_strings(r@),
{
    let ghost orig = input@;
    let mut rest = input;
    let mut out: Vec<String> = Vec::new();
    proof {
        assert(names_view(out@).to_multiset().add(names_view(rest@).to_multiset()) =~= names_view(
            orig,
        ).to_multiset());
    }
    while rest.len() > 0
        invariant
            names_view(out@).to_multiset().add(names_view(rest@).to_multiset()) == names_view(
                orig,
            ).to_multiset(),
            sorted_lex_strings(out@),
            forall|i: int, j: int|
                0 <= i < out@.len() && 0 <= j < rest@.len() ==> lex_leq(out@[i]@, rest@[j]@),
        decreases rest@.len(),
    {
        // find the least remaining name
        let mut m: usize = 0;
        let mut k: usize = 1;
        proof {
            lemma_lex_leq_refl(rest@[0]@);
        }
        while k < rest.len()
            invariant
                m < k <= rest@.len(),
                rest@.len() > 0,
                forall|j: int| 0 <= j < k ==> lex_leq(rest@[m as int]@, rest@[j]@),
            decreases rest@.len() - k,
        {
            if str_lex_leq(rest[k].as_str(), rest[m].as_str()) {
                proof {
                    assert forall|j: int| 0 <= j < k + 1 implies lex_leq(
                        rest@[k as int]@,
                        rest@[j]@,
                    ) by {
                        if j < k {
                            lemma_lex_leq_trans(rest@[k as int]@, rest@[m as int]@, rest@[j]@);
                        } else {
                            lemma_lex_leq_refl(rest@[k as int]@);
                        }
                    }
                }
                m = k;
            } else {
                proof {
                    lemma_lex_leq_total(rest@[k as int]@, rest@[m as int]@);
                }
            }
            k = k + 1;
        }
        let ghost rest0 = rest@;
        let ghost out0 = out@;
        let x = rest.remove(m);
        out.push(x);
        proof {
            lemma_names_view_remove(rest0, m as int);
            lemma_names_view_push(out0, rest0[m as int]);
            assert(names_view(rest0).to_multiset().contains(names_view(rest0)[m as int]));
            assert(names_view(out@).to_multiset().add(names_view(rest@).to_multiset())
                =~= names_view(out0).to_multiset().add(names_view(rest0).to_multiset()));
            // the new name keeps the output sorted and below the rest
            assert forall|i: int, j: int|
                0 <= i < out@.len() && 0 <= j < rest@.len() implies lex_leq(
                out@[i]@,
                rest@[j]@,
            ) by {
                assert(rest@[j] == rest0[if j < m as int {
                    j
                } else {
                    j + 1
                }]);
                if i < out0.len() {
                    assert(out@[i] == out0[i]);
                } else {
                    assert(out@[i] == rest0[m as int]);
                }
            }
        }
    }
    proof {
        assert(names_view(rest@).to_multiset() =~= Multiset::<Seq<char>>::empty());
        assert(names_view(out@).to_multiset().add(Multiset::<Seq<char>>::empty()) =~= names_view(
            out@,
        ).to_multiset());
    }
    out
}

/// Read the manifest text: the version names under `versions`, sorted
/// ascending lexicographically; the one error when the text holds no
/// such object.
pub fn parse_versions(raw: &str) -> (r: Result<Vec<String>, ManifestError>)
    ensures
        match r {
            Ok(v) => {
                &&& manifest_versions(raw@) matches Some(keys)
                &&& names_view(v@).to_multiset() == keys.to_multiset()
                &&& sorted_lex_strings(v@)
            },
            Err(e) => e == ManifestError::Unparseable && manifest_versions(raw@) is None,
        },
{
    match manifest_version_keys(raw) {
        None => Err(ManifestError::Unparseable),
        Some(ks) => Ok(sort_strings(ks)),
    }
}

/// The latest version of a sorted manifest: its last name; asking an
/// empty manifest is an error, not a panic.
pub fn latest(versions: &Vec<String>) -> (r: Result<&String, ManifestError>)
    ensures
        match r {
            Ok(s) => versions@.len() > 0 && *s == versions@.last(),
            Err(e) => versions@.len() == 0 && e == ManifestError::Empty,
        },
{
    if versions.len() == 0 {
        Err(ManifestError::Empty)
    } else {
        Ok(&versions[versions.len() - 1])
    }
}

} // verus!
