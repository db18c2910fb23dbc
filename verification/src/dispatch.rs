//! The dispatch table and the run-time resolution rules. The rendered page
//! embeds a read-only mapping from hashed identifiers to the export names
//! actually compiled into the client artifact. A dispatch request resolves
//! in a fixed order: an exact export-name match first (extracted inline
//! handlers carry their full export name), then the table (named-function
//! handlers carry an identifier), then a case-insensitive scan for an
//! export ending in `_<name>` kept for backward compatibility. A request
//! nothing resolves is a no-op, never a failure.

use vstd::prelude::*;
use vstd::utf8::encode_utf8;

verus! {

/// The table embedded in a rendered page: identifier → export name, in
/// insertion order; the first matching entry wins.
pub struct DispatchTable {
    pub entries: Vec<(String, String)>,
}

/// The models of the table entries.
pub open spec fn entries_view(es: Seq<(String, String)>) -> Seq<(Seq<char>, Seq<char>)> {
    es.map_values(|e: (String, String)| (e.0@, e.1@))
}

/// The models of the export names.
pub open spec fn exports_view(es: Seq<String>) -> Seq<Seq<char>> {
    es.map_values(|e: String| e@)
}

/// First-match lookup among the table entries.
pub open spec fn spec_lookup(entries: Seq<(Seq<char>, Seq<char>)>, key: Seq<char>) -> Option<
    Seq<char>>
    decreases entries.len(),
{
    if entries.len() == 0 {
        None
    } else if entries[0].0 == key {
        Some(entries[0].1)
    } else {
        spec_lookup(entries.drop_first(), key)
    }
}

/// A byte folded to lowercase, in the letter range the scan ignores case
/// for.
pub open spec fn lower_byte(b: u8) -> u8 {
    if 65 <= b <= 90 {
        (b + 32) as u8
    } else {
        b
    }
}

/// A byte sequence folded to lowercase.
pub open spec fn lower_bytes(s: Seq<u8>) -> Seq<u8> {
    s.map_values(|b: u8| lower_byte(b))
}

/// Whether `s` ends with `suffix`.
pub open spec fn seq_ends_with(s: Seq<u8>, suffix: Seq<u8>) -> bool {
    s.len() >= suffix.len() && s.skip(s.len() - suffix.len()) == suffix
}

/// The backward-compatibility rule: the export's text, folded to
/// lowercase, ends in `_` followed by the dispatch name folded likewise.
pub open spec fn suffix_matches(export: Seq<char>, name: Seq<char>) -> bool {
    seq_ends_with(lower_bytes(encode_utf8(export)), seq![95u8] + lower_bytes(encode_utf8(name)))
}

/// First export whose name the suffix rule accepts, in export order.
pub open spec fn spec_suffix_scan(exports: Seq<Seq<char>>, name: Seq<char>) -> Option<Seq<char>>
    decreases exports.len(),
{
    if exports.len() == 0 {
        None
    } else if suffix_matches(exports[0], name) {
        Some(exports[0])
    } else {
        spec_suffix_scan(exports.drop_first(), name)
    }
}

/// How a dispatch request resolved: by exact export name, through the
/// table, by the suffix scan, or not at all (a logged no-op).
#[derive(Clone, Debug, PartialEq, Eq)]
pub enum Resolution {
    Exact,
    Mapped(String),
    Suffix(String),
    Miss,
}

/// The mathematical shadow of a resolution.
pub enum ResolutionV {
    Exact,
    Mapped(Seq<char>),
    Suffix(Seq<char>),
    Miss,
}

/// The model of a resolution.
pub open spec fn resolution_view(r: Resolution) -> ResolutionV {
    match r {
        Resolution::Exact => ResolutionV::Exact,
        Resolution::Mapped(s) => ResolutionV::Mapped(s@),
        Resolution::Suffix(s) => ResolutionV::Suffix(s@),
        Resolution::Miss => ResolutionV::Miss,
    }
}

/// The whole resolution order: exact export match, else table, else suffix
/// scan, else a miss.
pub open spec fn spec_resolve(
    name: Seq<char>,
    entries: Seq<(Seq<char>, Seq<char>)>,
    exports: Seq<Seq<char>>,
) -> ResolutionV {
    if exports.contains(name) {
        ResolutionV::Exact
    } else {
        match spec_lookup(entries, name) {
            Some(e) => ResolutionV::Mapped(e),
            None => match spec_suffix_scan(exports, name) {
                Some(e) => ResolutionV::Suffix(e),
                None => ResolutionV::Miss,
            },
        }
    }
}

/// A byte folded to lowercase.
fn lower_u8(b: u8) -> (r: u8)
    ensures
        r == lower_byte(b),
{
    if 65 <= b && b <= 90 {
        b + 32
    } else {
        b
    }
}

/// Whether the export name ends, ignoring letter case, in `_` followed by
/// the dispatch name.
#[verifier::loop_isolation(false)]
fn ends_with_ci(export: &String, name: &str) -> (r: bool)
    ensures
        r == suffix_matches(export@, name@),
{
    let e = export.as_str().as_bytes();
    let n = name.as_bytes();
    let ghost le = lower_bytes(encode_utf8(export@));
    let ghost suf = seq![95u8] + lower_bytes(encode_utf8(name@));
    if e.len() < n.len() || e.len() - n.len() < 1 {
        proof {
            assert(le.len() == e@.len() && suf.len() == n@.len() + 1);
        }
        return false;
    }
    let off = e.len() - n.len() - 1;
    if e[off] != 95 {
        proof {
            assert(le[off as int] == lower_byte(e@[off as int]));
            assert(lower_byte(95u8) == 95u8);
            if seq_ends_with(le, suf) {
                assert(le.skip(le.len() - suf.len())[0] == le[off as int]);
                assert(suf[0] == 95u8);
            }
        }
        return false;
    }
    let mut j: usize = 0;
    while j < n.len()
        invariant
            j <= n@.len(),
            e@.len() >= n@.len() + 1,
            off == e@.len() - n@.len() - 1,
            e@ == encode_utf8(export@),
            n@ == encode_utf8(name@),
            le == lower_bytes(e@),
            suf == seq![95u8] + lower_bytes(n@),
            e@[off as int] == 95,
            forall|k: int|
                0 <= k < j ==> lower_byte(e@[off + 1 + k]) == lower_byte(#[trigger] n@[k]),
        decreases n@.len() - j,
    {
        let eb = lower_u8(e[off + 1 + j]);
        let nb = lower_u8(n[j]);
        if eb != nb {
            proof {
                if seq_ends_with(le, suf) {
                    assert(le.skip(le.len() - suf.len())[j + 1] == le[off + 1 + j]);
                    assert(suf[j + 1] == lower_bytes(n@)[j as int]);
                }
            }
            return false;
        }
        j = j + 1;
    }
    proof {
        assert(le.skip(le.len() - suf.len()) =~= suf) by {
            assert(le.len() == e@.len() && suf.len() == n@.len() + 1);
            assert forall|k: int| 0 <= k < suf.len() implies le.skip(le.len() - suf.len())[k]
                == suf[k] by {
                if k == 0 {
                    assert(le[off as int] == lower_byte(e@[off as int]));
                } else {
                    assert(le[off + k] == lower_byte(e@[off + k]));
                    assert(suf[k] == lower_bytes(n@)[k - 1]);
                }
            }
        }
    }
    true
}

/// Compares a string against a borrowed text.
fn string_is(a: &String, b: &str) -> (r: bool)
    ensures
        r == (a@ == b@),
{
    let t = b.to_owned();
    *a == t
}

/// Resolves one dispatch request against the table and the exported names,
/// in the fixed order: exact name, then table, then suffix scan, then a
/// miss — never an error.
#[verifier::loop_isolation(false)]
pub fn resolve(name: &str, table: &DispatchTable, exports: &Vec<String>) -> (r: Resolution)
    ensures
        resolution_view(r) == spec_resolve(
            name@,
            entries_view(table.entries@),
            exports_view(exports@),
        ),
{
    let ghost evs = exports_view(exports@);
    let ghost tvs = entries_view(table.entries@);
    let mut i: usize = 0;
    while i < exports.len()
        invariant
            i <= exports@.len(),
            evs == exports_view(exports@),
            forall|k: int| 0 <= k < i ==> #[trigger] evs[k] != name@,
        decreases exports@.len() - i,
    {
        if string_is(&exports[i], name) {
            proof {
                assert(evs[i as int] == name@);
            }
            return Resolution::Exact;
        }
        i = i + 1;
    }
    proof {
        assert(!evs.contains(name@));
        assert(tvs.skip(0) =~= tvs);
    }
    let mut t: usize = 0;
    while t < table.entries.len()
        invariant
            t <= table.entries@.len(),
            tvs == entries_view(table.entries@),
            spec_lookup(tvs, name@) == spec_lookup(tvs.skip(t as int), name@),
        decreases table.entries@.len() - t,
    {
        proof {
            assert(tvs.skip(t as int)[0] == tvs[t as int]);
            assert(tvs.skip(t as int).drop_first() =~= tvs.skip(t + 1));
        }
        if string_is(&table.entries[t].0, name) {
            proof {
                assert(tvs[t as int].0 == name@);
                assert(spec_lookup(tvs, name@) == Some(tvs[t as int].1));
            }
            return Resolution::Mapped(table.entries[t].1.clone());
        }
        t = t + 1;
    }
    proof {
        assert(tvs.skip(tvs.len() as int) =~= Seq::<(Seq<char>, Seq<char>)>::empty());
        assert(spec_lookup(tvs, name@) is None);
        assert(evs.skip(0) =~= evs);
    }
    let mut s: usize = 0;
    while s < exports.len()
        invariant
            s <= exports@.len(),
            evs == exports_view(exports@),
            spec_suffix_scan(evs, name@) == spec_suffix_scan(evs.skip(s as int), name@),
        decreases exports@.len() - s,
    {
        proof {
            assert(evs.skip(s as int)[0] == evs[s as int]);
            assert(evs.skip(s as int).drop_first() =~= evs.skip(s + 1));
        }
        if ends_with_ci(&exports[s], name) {
            proof {
                assert(suffix_matches(evs[s as int], name@));
                assert(spec_suffix_scan(evs, name@) == Some(evs[s as int]));
            }
            return Resolution::Suffix(exports[s].clone());
        }
        s = s + 1;
    }
    proof {
        assert(evs.skip(evs.len() as int) =~= Seq::<Seq<char>>::empty());
    }
    Resolution::Miss
}

/// Whether some key occurs twice among the entries: the collision the build
/// must refuse, since two keys mapping to one name would make dispatch
/// ambiguous.
pub open spec fn has_duplicate_key(entries: Seq<(Seq<char>, Seq<char>)>) -> bool {
    exists|i: int, j: int| 0 <= i < j < entries.len() && entries[i].0 == entries[j].0
}

/// Builds the dispatch table for one page from identifier/export pairs. A
/// repeated identifier is a build-time naming conflict: the build halts
/// with the offending position rather than shipping an ambiguous table.
/// `Ok` holds exactly the given entries; `Err(j)` names the first position
/// whose identifier already occurred.
#[verifier::loop_isolation(false)]
pub fn build_dispatch_table(entries: Vec<(String, String)>) -> (r: Result<DispatchTable, usize>)
    ensures
        match r {
            Ok(t) => t.entries@ == entries@ && !has_duplicate_key(entries_view(entries@)),
            Err(j) => {
                &&& 0 < j < entries@.len()
                &&& exists|i: int|
                    0 <= i < j && #[trigger] entries_view(entries@)[i].0 == entries_view(
                        entries@,
                    )[j as int].0
                &&& !has_duplicate_key(entries_view(entries@).take(j as int))
            },
        },
{
    let ghost tvs = entries_view(entries@);
    if entries.len() == 0 {
        proof {
            assert(!has_duplicate_key(tvs));
        }
        return Ok(DispatchTable { entries });
    }
    let mut j: usize = 1;
    while j < entries.len()
        invariant
            1 <= j <= entries@.len(),
            tvs == entries_view(entries@),
            !has_duplicate_key(tvs.take(j as int)),
        decreases entries@.len() - j,
    {
        let mut i: usize = 0;
        while i < j
            invariant
                i <= j < entries@.len(),
                tvs == entries_view(entries@),
                forall|k: int| 0 <= k < i ==> #[trigger] tvs[k].0 != tvs[j as int].0,
            decreases j - i,
        {
            if string_is(&entries[i].0, entries[j].0.as_str()) {
                proof {
                    assert(tvs[i as int].0 == tvs[j as int].0);
                }
                return Err(j);
            }
            i = i + 1;
        }
        proof {
            assert forall|a: int, b: int|
                0 <= a < b < j + 1 implies (#[trigger] tvs.take(j + 1)[a]).0 != (#[trigger] tvs.take(
                j + 1,
            )[b]).0 by {
                if b == j {
                    assert(tvs[a].0 != tvs[j as int].0);
                } else {
                    assert(!has_duplicate_key(tvs.take(j as int)));
                    assert(tvs.take(j as int)[a] == tvs.take(j + 1)[a]);
                    assert(tvs.take(j as int)[b] == tvs.take(j + 1)[b]);
                }
            }
        }
        j = j + 1;
    }
    proof {
        assert(tvs.take(tvs.len() as int) =~= tvs);
    }
    Ok(DispatchTable { entries })
}

} // verus!
