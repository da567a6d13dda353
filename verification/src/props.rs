//! Recording build identifiers in a Java-style properties file: the
//! existing content is kept (or discarded when absent or malformed), and
//! one reserved key is set to the identifiers joined with `'|'`.

use crate::text::{ids_view, join_of, join_pipe};
use vstd::prelude::*;
use vstd::string::*;

verus! {

/// The reserved key under which the identifiers are recorded.
pub open spec fn proguard_key() -> Seq<char> {
    "io.sentry.ProguardUuids"@
}

/// The key/value mapping that the Java properties text in `bytes` holds,
/// or `None` when it fails to parse.
pub uninterp spec fn parsed_props(bytes: Seq<u8>) -> Option<Map<Seq<char>, Seq<char>>>;

/// The mapping that a sequence of key/value entries holds; a later entry
/// overwrites an earlier one with the same key.
pub open spec fn entries_map(s: Seq<(String, String)>) -> Map<Seq<char>, Seq<char>>
    decreases s.len(),
{
    if s.len() == 0 {
        Map::empty()
    } else {
        entries_map(s.drop_last()).insert(s.last().0@, s.last().1@)
    }
}

/// Pairwise distinct keys.
pub open spec fn keys_unique(s: Seq<(String, String)>) -> bool {
    forall|i: int, j: int| 0 <= i < j < s.len() ==> s[i].0@ != s[j].0@
}

/// A character that the properties text format carries faithfully through
/// a write and a reparse: the whitespace characters with dedicated
/// escapes, printable ASCII, and the upper half of Latin-1. Characters the
/// file encoding cannot hold are written as `\u` escapes that the reader
/// does not reliably recover, so they are excluded.
pub open spec fn prop_char_ok(c: char) -> bool {
    c == '\t' || c == '\n' || c == '\r' || c == '\u{c}' || (0x20 <= c as u32 && c as u32 <= 0x7e)
        || (0xa0 <= c as u32 && c as u32 <= 0xff)
}

/// Every character of `s` is carried faithfully by the properties format.
pub open spec fn prop_str_ok(s: Seq<char>) -> bool {
    forall|i: int| 0 <= i < s.len() ==> prop_char_ok(#[trigger] s[i])
}

/// Every key and value of the entries is carried faithfully.
pub open spec fn props_ok(s: Seq<(String, String)>) -> bool {
    forall|i: int| 0 <= i < s.len() ==> prop_str_ok(#[trigger] s[i].0@) && prop_str_ok(s[i].1@)
}

/// Every key and value of the mapping is carried faithfully.
pub open spec fn map_props_ok(m: Map<Seq<char>, Seq<char>>) -> bool {
    forall|k: Seq<char>| #[trigger] m.contains_key(k) ==> prop_str_ok(k) && prop_str_ok(m[k])
}

#[verifier::external_type_specification]
#[verifier::external_body]
pub struct ExPropertiesError(java_properties::PropertiesError);

/// Relies on `java_properties::read`: parses the Java properties text
/// format from in-memory bytes, failing exactly when the text is
/// malformed; on success the entries carry pairwise distinct keys and
/// hold exactly the parsed mapping.
#[verifier::external_body]
fn read_props(data: &[u8]) -> (r: Result<Vec<(String, String)>, java_properties::PropertiesError>)
    ensures
        r is Ok <==> parsed_props(data@) is Some,
        r matches Ok(v) ==> keys_unique(v@) && entries_map(v@) == parsed_props(data@).unwrap(),
{
    match java_properties::read(data) {
        Ok(m) => Ok(m.into_iter().collect()),
        Err(e) => Err(e),
    }
}

/// Relies on `java_properties::write`: writes the entries in the Java
/// properties text format to an in-memory buffer, which always succeeds
/// there; when every character involved survives the format's escaping
/// (see `prop_char_ok`), the output parses back to the entries' mapping.
#[verifier::external_body]
fn write_props(entries: &Vec<(String, String)>) -> (r: Result<
    Vec<u8>,
    java_properties::PropertiesError,
>)
    ensures
        r is Ok,
        r matches Ok(b) ==> (props_ok(entries@) ==> parsed_props(b@) == Some(
            entries_map(entries@),
        )),
{
    let map: std::collections::HashMap<String, String> = entries.iter().cloned().collect();
    let mut out: Vec<u8> = Vec::new();
    match java_properties::write(&mut out, &map) {
        Ok(()) => Ok(out),
        Err(e) => Err(e),
    }
}

proof fn lemma_keys_unique_drop_last(s: Seq<(String, String)>)
    requires
        keys_unique(s),
        s.len() > 0,
    ensures
        keys_unique(s.drop_last()),
{
    assert(forall|k: int| 0 <= k < s.len() - 1 ==> s.drop_last()[k] == s[k]);
}

proof fn lemma_entries_map_at(s: Seq<(String, String)>, i: int)
    requires
        keys_unique(s),
        0 <= i < s.len(),
    ensures
        entries_map(s).contains_key(s[i].0@),
        entries_map(s)[s[i].0@] == s[i].1@,
    decreases s.len(),
{
    if i < s.len() - 1 {
        lemma_keys_unique_drop_last(s);
        assert(s.drop_last()[i] == s[i]);
        lemma_entries_map_at(s.drop_last(), i);
        assert(s[s.len() - 1].0@ != s[i].0@);
    }
}

proof fn lemma_entries_map_update(s: Seq<(String, String)>, i: int, p: (String, String))
    requires
        keys_unique(s),
        0 <= i < s.len(),
        p.0@ == s[i].0@,
    ensures
        entries_map(s.update(i, p)) == entries_map(s).insert(p.0@, p.1@),
        keys_unique(s.update(i, p)),
    decreases s.len(),
{
    let s2 = s.update(i, p);
    assert(forall|k: int| 0 <= k < s.len() && k != i ==> s2[k] == s[k]);
    assert(s2[i] == p);
    if i == s.len() - 1 {
        assert(s2.drop_last() =~= s.drop_last());
        assert(s2.last() == p);
        assert(entries_map(s2) == entries_map(s.drop_last()).insert(p.0@, p.1@));
        assert(entries_map(s) == entries_map(s.drop_last()).insert(s.last().0@, s.last().1@));
        assert(entries_map(s).insert(p.0@, p.1@) =~= entries_map(s.drop_last()).insert(
            p.0@,
            p.1@,
        ));
    } else {
        lemma_keys_unique_drop_last(s);
        assert(s.drop_last()[i] == s[i]);
        lemma_entries_map_update(s.drop_last(), i, p);
        assert(s2.drop_last() =~= s.drop_last().update(i, p));
        assert(s2.last() == s.last());
        assert(entries_map(s2) == entries_map(s.drop_last()).insert(p.0@, p.1@).insert(
            s.last().0@,
            s.last().1@,
        ));
        assert(s.last().0@ != p.0@);
        assert(entries_map(s2) =~= entries_map(s).insert(p.0@, p.1@));
    }
}

/// Sets `key` to `value` among the entries: replaces the value of the
/// entry carrying that key, or appends a new entry when none does.
fn set_entry(entries: &mut Vec<(String, String)>, key: String, value: String)
    requires
        keys_unique(old(entries)@),
    ensures
        keys_unique(final(entries)@),
        entries_map(final(entries)@) == entries_map(old(entries)@).insert(key@, value@),
{
    let ghost kv = key@;
    let ghost vv = value@;
    let n = entries.len();
    let mut idx: Option<usize> = None;
    let mut i: usize = 0;
    while i < n
        invariant
            i <= n,
            n == entries@.len(),
            match idx {
                None => forall|j: int| 0 <= j < i ==> entries@[j].0@ != key@,
                Some(d) => d < i && entries@[d as int].0@ == key@,
            },
        decreases n - i,
    {
        if idx.is_none() {
            let hit: bool = entries[i].0.eq(&key);
            if hit {
                idx = Some(i);
            }
        }
        i += 1;
    }
    let ghost prior = entries@;
    match idx {
        Some(d) => {
            let _replaced = entries.remove(d);
            entries.insert(d, (key, value));
            proof {
                assert(entries@ =~= prior.update(d as int, entries@[d as int]));
                assert(entries@[d as int].0@ == kv);
                assert(entries@[d as int].1@ == vv);
                lemma_entries_map_update(prior, d as int, entries@[d as int]);
            }
        },
        None => {
            entries.push((key, value));
            proof {
                assert(entries@.drop_last() =~= prior);
                assert(entries@.last().0@ == kv);
                assert(entries@.last().1@ == vv);
                assert(entries_map(entries@) == entries_map(prior).insert(kv, vv));
                assert(forall|j: int| 0 <= j < prior.len() ==> entries@[j] == prior[j]);
                assert(keys_unique(entries@));
            }
        },
    }
}

/// The prior mapping of a merge: the parsed content of the existing
/// bytes, or empty when there are none or they fail to parse.
pub open spec fn prior_map(prior: Option<Seq<u8>>) -> Map<Seq<char>, Seq<char>> {
    match prior {
        None => Map::empty(),
        Some(b) => match parsed_props(b) {
            Some(m) => m,
            None => Map::empty(),
        },
    }
}

/// The mapping after a merge: the prior entries with the ProguardUuids
/// key set to the identifiers joined with `'|'`.
pub open spec fn merged_map(prior: Option<Seq<u8>>, ids: Seq<Seq<char>>) -> Map<
    Seq<char>,
    Seq<char>,
> {
    prior_map(prior).insert(proguard_key(), join_of(ids, '|'))
}

/// The bytes an optional slice holds.
pub open spec fn opt_bytes_view(b: Option<&[u8]>) -> Option<Seq<u8>> {
    match b {
        Some(x) => Some(x@),
        None => None,
    }
}

/// Produces the properties file content that records `ids`: the entries
/// of `existing` — none when it is absent, and none when it is malformed —
/// with the ProguardUuids key set to the identifiers joined with `'|'`.
///
/// The parse-back guarantee is guarded by `map_props_ok`: a key or value
/// holding a character outside that set does not survive the properties
/// writer's escaping, and the stored file then differs from the mapping.
pub fn merge_proguard_uuids(existing: Option<&[u8]>, ids: &Vec<String>) -> (r: Vec<u8>)
    ensures
        map_props_ok(merged_map(opt_bytes_view(existing), ids_view(ids@))) ==> parsed_props(r@)
            == Some(merged_map(opt_bytes_view(existing), ids_view(ids@))),
        map_props_ok(merged_map(opt_bytes_view(existing), ids_view(ids@))) ==> parsed_props(
            r@,
        ).unwrap()[proguard_key()] == join_of(ids_view(ids@), '|'),
        map_props_ok(merged_map(opt_bytes_view(existing), ids_view(ids@))) ==> forall|
            k: Seq<char>,
        |
            k != proguard_key() ==> #[trigger] parsed_props(r@).unwrap().contains_key(k)
                == prior_map(opt_bytes_view(existing)).contains_key(k) && (prior_map(
                opt_bytes_view(existing),
            ).contains_key(k) ==> parsed_props(r@).unwrap()[k] == prior_map(
                opt_bytes_view(existing),
            )[k]),
{
    let mut entries: Vec<(String, String)> = match existing {
        Some(data) => match read_props(data) {
            Ok(v) => v,
            Err(_) => Vec::new(),
        },
        None => Vec::new(),
    };
    assert(keys_unique(entries@));
    assert(entries_map(entries@) == prior_map(opt_bytes_view(existing)));
    let joined = join_pipe(ids);
    let key = String::from_str("io.sentry.ProguardUuids");
    set_entry(&mut entries, key, joined);
    proof {
        assert(entries_map(entries@) == merged_map(opt_bytes_view(existing), ids_view(ids@)));
        if map_props_ok(entries_map(entries@)) {
            assert forall|i: int| 0 <= i < entries@.len() implies prop_str_ok(
                #[trigger] entries@[i].0@,
            ) && prop_str_ok(entries@[i].1@) by {
                lemma_entries_map_at(entries@, i);
            }
            assert(props_ok(entries@));
        }
    }
    match write_props(&entries) {
        Ok(b) => b,
        Err(_) => vstd::pervasive::unreached(),
    }
}

/// Keys other than the ProguardUuids key are carried over unchanged by a
/// merge: such a key is present afterwards exactly when it was present
/// before, with the value it had.
pub proof fn lemma_merge_keeps_unrelated(
    prior: Option<Seq<u8>>,
    ids: Seq<Seq<char>>,
    k: Seq<char>,
)
    requires
        k != proguard_key(),
    ensures
        merged_map(prior, ids).contains_key(k) == prior_map(prior).contains_key(k),
        merged_map(prior, ids).contains_key(k) ==> merged_map(prior, ids)[k] == prior_map(
            prior,
        )[k],
{
}

/// After a merge the ProguardUuids key is present and holds exactly the
/// identifiers joined with `'|'`, whatever it held before.
pub proof fn lemma_merge_overwrites(prior: Option<Seq<u8>>, ids: Seq<Seq<char>>)
    ensures
        merged_map(prior, ids).contains_key(proguard_key()),
        merged_map(prior, ids)[proguard_key()] == join_of(ids, '|'),
{
}

/// Merging with no existing content yields a mapping that holds the
/// ProguardUuids key alone.
pub proof fn lemma_merge_fresh(ids: Seq<Seq<char>>)
    ensures
        merged_map(None, ids) == Map::<Seq<char>, Seq<char>>::empty().insert(
            proguard_key(),
            join_of(ids, '|'),
        ),
{
}

/// Existing content that fails to parse is discarded without error: the
/// merge result holds the ProguardUuids key alone.
pub proof fn lemma_malformed_prior_discarded(b: Seq<u8>, ids: Seq<Seq<char>>)
    requires
        parsed_props(b) is None,
    ensures
        merged_map(Some(b), ids) == Map::<Seq<char>, Seq<char>>::empty().insert(
            proguard_key(),
            join_of(ids, '|'),
        ),
{
}

} // verus!
