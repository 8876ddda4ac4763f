//! The on-disk version descriptor: a plain-text file of `key=value`
//! lines. Parsing splits the text into lines, requires an `=` on every
//! non-blank line, keeps the last write for a repeated key, and reads
//! the `VersionName` and `VersionTime` keys into a [`Version`].

use vstd::prelude::*;

use crate::strutil::{first_eq, lemma_first_eq_at, lemma_first_eq_none, scan_char, str_eq};

verus! {

/// What one line of the descriptor means.
pub enum LineParse {
    /// `key=value`, split at the first `=`.
    Entry(Seq<char>, Seq<char>),
    /// Nothing on the line.
    Blank,
    /// No `=` on a non-blank line.
    Malformed,
}

/// A line with a trailing carriage return removed, so that text with
/// `\r\n` line endings reads the same as text with `\n` ones.
pub open spec fn strip_cr(line: Seq<char>) -> Seq<char> {
    if line.len() > 0 && line.last() == '\r' {
        line.drop_last()
    } else {
        line
    }
}

/// Classify one raw line: blank, `key=value`, or malformed.
pub open spec fn line_entry(raw_line: Seq<char>) -> LineParse {
    let line = strip_cr(raw_line);
    if line.len() == 0 {
        LineParse::Blank
    } else {
        match first_eq(line, '=') {
            None => LineParse::Malformed,
            Some(p) => LineParse::Entry(line.take(p), line.skip(p + 1)),
        }
    }
}

/// Fold the remaining text, line by line, into the mapping built so
/// far; `None` as soon as a line is malformed.
pub open spec fn parse_rest(acc: Map<Seq<char>, Seq<char>>, s: Seq<char>) -> Option<
    Map<Seq<char>, Seq<char>>,
>
    decreases s.len(),
    via parse_rest_decreases
{
    match first_eq(s, '\n') {
        Some(i) => match line_entry(s.take(i)) {
            LineParse::Entry(k, v) => parse_rest(acc.insert(k, v), s.skip(i + 1)),
            LineParse::Blank => parse_rest(acc, s.skip(i + 1)),
            LineParse::Malformed => None,
        },
        None => match line_entry(s) {
            LineParse::Entry(k, v) => Some(acc.insert(k, v)),
            LineParse::Blank => Some(acc),
            LineParse::Malformed => None,
        },
    }
}

#[via_fn]
proof fn parse_rest_decreases(acc: Map<Seq<char>, Seq<char>>, s: Seq<char>) {
    crate::strutil::lemma_first_eq_props(s, '\n');
}

/// The meaning of a whole descriptor: its key/value mapping with the
/// last write winning, or nothing when some line is malformed.
pub open spec fn parse_spec(s: Seq<char>) -> Option<Map<Seq<char>, Seq<char>>> {
    parse_rest(Map::empty(), s)
}

/// The key/value pairs of a descriptor in the order read; viewed as a
/// mapping in which the last write for a key wins.
pub struct KvMap {
    pairs: Vec<(String, String)>,
}

spec fn kv_view(pairs: Seq<(String, String)>) -> Map<Seq<char>, Seq<char>>
    decreases pairs.len(),
{
    if pairs.len() == 0 {
        Map::empty()
    } else {
        kv_view(pairs.drop_last()).insert(pairs.last().0@, pairs.last().1@)
    }
}

impl View for KvMap {
    type V = Map<Seq<char>, Seq<char>>;

    closed spec fn view(&self) -> Map<Seq<char>, Seq<char>> {
        kv_view(self.pairs@)
    }
}

/// Looking a key up ignores every pair whose key differs, so the
/// result is settled by the pairs before `i` when the rest miss it.
proof fn lemma_kv_view_agree(pairs: Seq<(String, String)>, i: int, key: Seq<char>)
    requires
        0 <= i <= pairs.len(),
        forall|j: int| i <= j < pairs.len() ==> pairs[j].0@ != key,
    ensures
        kv_view(pairs).contains_key(key) == kv_view(pairs.take(i)).contains_key(key),
        kv_view(pairs).contains_key(key) ==> kv_view(pairs)[key] == kv_view(pairs.take(i))[key],
    decreases pairs.len() - i,
{
    if i == pairs.len() {
        assert(pairs.take(i) =~= pairs);
    } else {
        let shorter = pairs.drop_last();
        assert(pairs[pairs.len() - 1].0@ != key);
        assert forall|j: int| i <= j < shorter.len() implies shorter[j].0@ != key by {
            assert(shorter[j] == pairs[j]);
        }
        lemma_kv_view_agree(shorter, i, key);
        assert(shorter.take(i) =~= pairs.take(i));
    }
}

impl KvMap {
    /// An empty mapping.
    pub fn new() -> (r: KvMap)
        ensures
            r@ == Map::<Seq<char>, Seq<char>>::empty(),
    {
        KvMap { pairs: Vec::new() }
    }

    /// Record `key = value`, overriding an earlier write to `key`.
    pub fn insert(&mut self, key: String, value: String)
        ensures
            final(self)@ == old(self)@.insert(key@, value@),
    {
        let ghost pairs0 = self.pairs@;
        let ghost k = key@;
        let ghost v = value@;
        self.pairs.push((key, value));
        proof {
            assert(self.pairs@.drop_last() =~= pairs0);
            assert(self.pairs@.last().0@ == k && self.pairs@.last().1@ == v);
        }
    }

    /// The value last written for `key`, if any.
    pub fn get(&self, key: &str) -> (r: Option<&String>)
        ensures
            match r {
                Some(v) => self@.contains_key(key@) && v@ == self@[key@],
                None => !self@.contains_key(key@),
            },
    {
        let mut i: usize = self.pairs.len();
        while i > 0
            invariant
                i <= self.pairs@.len(),
                forall|j: int| i <= j < self.pairs@.len() ==> self.pairs@[j].0@ != key@,
            decreases i,
        {
            i = i - 1;
            if str_eq(self.pairs[i].0.as_str(), key) {
                proof {
                    lemma_kv_view_agree(self.pairs@, i + 1, key@);
                    assert(self.pairs@.take(i + 1).drop_last() =~= self.pairs@.take(i as int));
                    assert(self.pairs@.take(i + 1).last() == self.pairs@[i as int]);
                }
                return Some(&self.pairs[i].1);
            }
        }
        proof {
            lemma_kv_view_agree(self.pairs@, 0, key@);
            assert(self.pairs@.take(0) =~= Seq::<(String, String)>::empty());
        }
        None
    }
}

/// Parse the descriptor text into its key/value mapping; `None` when a
/// non-blank line carries no `=`.
pub fn parse_version_file(version_file: &str) -> (r: Option<KvMap>)
    ensures
        match r {
            Some(m) => parse_spec(version_file@) == Some(m@),
            None => parse_spec(version_file@) is None,
        },
{
    let ghost s = version_file@;
    let n = version_file.unicode_len();
    let mut kv = KvMap::new();
    let mut pos: usize = 0;
    proof {
        assert(s.skip(0) =~= s);
    }
    while pos < n
        invariant
            pos <= n,
            n == s.len(),
            s == version_file@,
            parse_rest(kv@, s.skip(pos as int)) == parse_spec(s),
        decreases n - pos,
    {
        let ghost rem = s.skip(pos as int);
        let ghost kv0 = kv@;
        let scan = scan_char(version_file, pos, '\n');
        let j: usize = match scan {
            Some(jj) => jj,
            None => n,
        };
        proof {
            if scan is Some {
                assert(rem[j as int - pos as int] == s[j as int]);
                assert forall|t: int| 0 <= t < j as int - pos as int implies rem[t] != '\n' by {
                    assert(rem[t] == s[pos as int + t]);
                }
                lemma_first_eq_at(rem, '\n', j as int - pos as int);
            } else {
                assert forall|t: int| 0 <= t < rem.len() implies rem[t] != '\n' by {
                    assert(rem[t] == s[pos as int + t]);
                }
                lemma_first_eq_none(rem, '\n');
            }
        }
        let line = version_file.substring_char(pos, j);
        proof {
            assert(line@ =~= rem.take(j as int - pos as int));
            if scan is None {
                assert(line@ =~= rem);
            }
        }
        let llen = line.unicode_len();
        let mut core: &str = line;
        let mut clen: usize = llen;
        if llen > 0 && line.get_char(llen - 1) == '\r' {
            core = line.substring_char(0, llen - 1);
            clen = llen - 1;
            proof {
                assert(core@ =~= strip_cr(line@));
            }
        } else {
            proof {
                assert(core@ =~= strip_cr(line@));
            }
        }
        let ghost lp = line_entry(line@);
        if clen == 0 {
            proof {
                assert(lp is Blank);
            }
        } else {
            match scan_char(core, 0, '=') {
                None => {
                    proof {
                        lemma_first_eq_none(core@, '=');
                        assert(lp is Malformed);
                    }
                    return None;
                },
                Some(p) => {
                    proof {
                        lemma_first_eq_at(core@, '=', p as int);
                    }
                    let key = core.substring_char(0, p).to_owned();
                    let value = core.substring_char(p + 1, clen).to_owned();
                    proof {
                        assert(key@ =~= strip_cr(line@).take(p as int));
                        assert(value@ =~= strip_cr(line@).skip(p as int + 1));
                        assert(lp == LineParse::Entry(key@, value@));
                    }
                    kv.insert(key, value);
                },
            }
        }
        proof {
            if scan is Some {
                assert(rem.skip(j as int - pos as int + 1) =~= s.skip(j as int + 1));
            } else {
                assert(s.skip(n as int) =~= Seq::<char>::empty());
            }
        }
        pos = if scan.is_some() {
            j + 1
        } else {
            n
        };
    }
    proof {
        assert(s.skip(n as int) =~= Seq::<char>::empty());
    }
    Some(kv)
}

/// A parsed version descriptor: the build's name and its timestamp,
/// both taken verbatim.
#[derive(Debug)]
pub struct Version {
    pub version_name: String,
    pub version_time: String,
}

/// The version a mapping describes: both required keys present, their
/// values taken as they are; nothing when either key is missing.
pub open spec fn version_of_map(m: Map<Seq<char>, Seq<char>>) -> Option<(Seq<char>, Seq<char>)> {
    if m.contains_key("VersionName"@) && m.contains_key("VersionTime"@) {
        Some((m["VersionName"@], m["VersionTime"@]))
    } else {
        None
    }
}

/// The version a whole descriptor text describes, if it parses and
/// carries both required keys.
pub open spec fn version_from_text(t: Seq<char>) -> Option<(Seq<char>, Seq<char>)> {
    match parse_spec(t) {
        Some(m) => version_of_map(m),
        None => None,
    }
}

/// Read the two required keys out of a parsed mapping; `None`, never a
/// partial value, when either is missing.
pub fn sus_to_version(map: &KvMap) -> (r: Option<Version>)
    ensures
        match r {
            Some(v) => version_of_map(map@) == Some((v.version_name@, v.version_time@)),
            None => version_of_map(map@) is None,
        },
{
    let name = match map.get("VersionName") {
        Some(n) => n,
        None => {
            return None;
        },
    };
    let time = match map.get("VersionTime") {
        Some(t) => t,
        None => {
            return None;
        },
    };
    Some(Version { version_name: name.clone(), version_time: time.clone() })
}

/// Law: a two-line descriptor `VersionName=A\nVersionTime=B`, where
/// neither value holds a newline or ends in a carriage return, parses
/// to exactly the version named `A` with time `B`.
pub proof fn lemma_two_line_version(a: Seq<char>, b: Seq<char>)
    requires
        forall|t: int| 0 <= t < a.len() ==> a[t] != '\n',
        a.len() > 0 ==> a.last() != '\r',
        forall|t: int| 0 <= t < b.len() ==> b[t] != '\n',
        b.len() > 0 ==> b.last() != '\r',
    ensures
        ({
            let text = "VersionName="@ + a + seq!['\n'] + "VersionTime="@ + b;
            &&& parse_spec(text) is Some
            &&& version_from_text(text) == Some((a, b))
        }),
{
    reveal_strlit("VersionName=");
    reveal_strlit("VersionTime=");
    reveal_strlit("VersionName");
    reveal_strlit("VersionTime");
    let k1 = "VersionName="@;
    let k2 = "VersionTime="@;
    assert(k1 =~= seq!['V', 'e', 'r', 's', 'i', 'o', 'n', 'N', 'a', 'm', 'e', '=']);
    assert(k2 =~= seq!['V', 'e', 'r', 's', 'i', 'o', 'n', 'T', 'i', 'm', 'e', '=']);
    assert("VersionName"@ =~= seq!['V', 'e', 'r', 's', 'i', 'o', 'n', 'N', 'a', 'm', 'e']);
    assert("VersionTime"@ =~= seq!['V', 'e', 'r', 's', 'i', 'o', 'n', 'T', 'i', 'm', 'e']);
    let line1 = k1 + a;
    let line2 = k2 + b;
    let text0 = "VersionName="@ + a + seq!['\n'] + "VersionTime="@ + b;
    let text = line1 + seq!['\n'] + line2;
    assert(text0 =~= text);
    // the first newline sits right after the first line
    assert(text[line1.len() as int] == '\n');
    assert forall|t: int| 0 <= t < line1.len() implies text[t] != '\n' by {
        assert(text[t] == line1[t]);
        if t < 12 {
            assert(line1[t] == k1[t]);
        } else {
            assert(line1[t] == a[t - 12]);
        }
    }
    lemma_first_eq_at(text, '\n', line1.len() as int);
    assert(text.take(line1.len() as int) =~= line1);
    assert(text.skip(line1.len() as int + 1) =~= line2);
    // the first line is the entry VersionName = a
    assert(strip_cr(line1) == line1) by {
        if a.len() > 0 {
            assert(line1.last() == a.last());
        } else {
            assert(line1.last() == k1[11]);
        }
    }
    assert(line1[11] == '=');
    assert forall|t: int| 0 <= t < 11 implies line1[t] != '=' by {
        assert(line1[t] == k1[t]);
    }
    lemma_first_eq_at(line1, '=', 11);
    assert(line1.take(11) =~= "VersionName"@);
    assert(line1.skip(12) =~= a);
    assert(line_entry(line1) == LineParse::Entry("VersionName"@, a));
    let m0 = Map::<Seq<char>, Seq<char>>::empty();
    let m1 = m0.insert("VersionName"@, a);
    // the second line is the entry VersionTime = b, with no newline after it
    assert forall|t: int| 0 <= t < line2.len() implies line2[t] != '\n' by {
        if t < 12 {
            assert(line2[t] == k2[t]);
        } else {
            assert(line2[t] == b[t - 12]);
        }
    }
    lemma_first_eq_none(line2, '\n');
    assert(strip_cr(line2) == line2) by {
        if b.len() > 0 {
            assert(line2.last() == b.last());
        } else {
            assert(line2.last() == k2[11]);
        }
    }
    assert(line2[11] == '=');
    assert forall|t: int| 0 <= t < 11 implies line2[t] != '=' by {
        assert(line2[t] == k2[t]);
    }
    lemma_first_eq_at(line2, '=', 11);
    assert(line2.take(11) =~= "VersionTime"@);
    assert(line2.skip(12) =~= b);
    assert(line_entry(line2) == LineParse::Entry("VersionTime"@, b));
    let m2 = m1.insert("VersionTime"@, b);
    assert(parse_rest(m1, line2) == Some(m2));
    assert(parse_spec(text) == Some(m2));
    // the two keys differ, so neither write clobbers the other
    assert("VersionName"@[7] == 'N' && "VersionTime"@[7] == 'T');
    assert("VersionName"@ != "VersionTime"@);
    assert(version_of_map(m2) == Some((a, b)));
}

} // verus!
