//! The ledger: a JSON object of building entries keyed by the decimal order in
//! which a run saved them.
use crate::geometry::distinct;
use crate::json::{
    insert_object, insert_string, insert_strings, json_accepts, json_tree, max_nesting,
    nested_within, new_object, object_members, parse_json, render_object, JsonTree, ParsedJson,
};
use crate::scan::BuildingInfo;
use crate::text::{is_ws, is_ws_char, string_views};
use vstd::prelude::*;
use vstd::string::StrSliceExecFns;
use vstd::string::StringExecFns;

verus! {

pub open spec fn digit_char(d: nat) -> char {
    if d == 0 { '0' } else if d == 1 { '1' } else if d == 2 { '2' } else if d == 3 { '3' }
    else if d == 4 { '4' } else if d == 5 { '5' } else if d == 6 { '6' } else if d == 7 { '7' }
    else if d == 8 { '8' } else { '9' }
}

/// The decimal digits of `n`, without leading zeros.
pub open spec fn decimal(n: nat) -> Seq<char>
    decreases n,
{
    if n < 10 {
        seq![digit_char(n)]
    } else {
        decimal(n / 10).push(digit_char(n % 10))
    }
}

fn digit_text(d: u32) -> (r: &'static str)
    requires
        d < 10,
    ensures
        r@ == seq![digit_char(d as nat)],
{
    proof {
        reveal_strlit("0");
        reveal_strlit("1");
        reveal_strlit("2");
        reveal_strlit("3");
        reveal_strlit("4");
        reveal_strlit("5");
        reveal_strlit("6");
        reveal_strlit("7");
        reveal_strlit("8");
        reveal_strlit("9");
    }
    if d == 0 { "0" } else if d == 1 { "1" } else if d == 2 { "2" } else if d == 3 { "3" }
    else if d == 4 { "4" } else if d == 5 { "5" } else if d == 6 { "6" } else if d == 7 { "7" }
    else if d == 8 { "8" } else { "9" }
}

/// The key under which the `count`-th building saved in a run is stored: its
/// decimal form. Each run counts from zero, so a new run writes over the entry
/// under `"0"` that an earlier run left.
pub fn entry_key(count: u32) -> (r: String)
    ensures
        r@ == decimal(count as nat),
    decreases count,
{
    let d = digit_text(count % 10);
    if count < 10 {
        d.to_owned()
    } else {
        let mut s = entry_key(count / 10);
        s.append(d);
        s
    }
}

/// Content of nothing but whitespace stands for an empty ledger.
pub open spec fn is_blank(s: Seq<char>) -> bool {
    forall|i: int| 0 <= i < s.len() ==> is_ws(#[trigger] s[i])
}

pub fn blank_text(s: &str) -> (r: bool)
    ensures
        r == is_blank(s@),
{
    let n = s.unicode_len();
    let mut i: usize = 0;
    while i < n
        invariant
            n == s@.len(),
            i <= n,
            forall|j: int| 0 <= j < i ==> is_ws(#[trigger] s@[j]),
        decreases n - i,
    {
        if !is_ws_char(s.get_char(i)) {
            return false;
        }
        i = i + 1;
    }
    true
}

/// Whether the existing content of a ledger must be parsed: an absent ledger,
/// or one of whitespace only, is an empty object.
pub fn ledger_needs_parse(existing: &Option<String>) -> (r: bool)
    ensures
        r == has_content(*existing),
{
    match existing {
        Some(s) => !blank_text(s.as_str()),
        None => false,
    }
}

/// There is ledger content to be parsed.
pub open spec fn has_content(existing: Option<String>) -> bool {
    match existing {
        Some(s) => !is_blank(s@),
        None => false,
    }
}

/// Why an existing ledger cannot take a new entry.
#[derive(Debug, PartialEq, Eq, Structural)]
pub enum LedgerError {
    /// serde_json does not accept the content.
    Parse,
    /// The content is JSON, but neither an object nor `null`.
    NotAnObject,
}

/// The ledger content can take a new entry: there is none, or only
/// whitespace, or it is a JSON object or `null`.
pub open spec fn ledger_readable(existing: Option<String>) -> bool {
    !has_content(existing) || (json_accepts(existing->0@) && (json_tree(existing->0@) is Obj
        || json_tree(existing->0@) is Null))
}

/// The members of the ledger that the existing content holds; none where it is
/// absent, blank or `null`.
pub open spec fn base_members(existing: Option<String>) -> Map<Seq<char>, JsonTree> {
    if has_content(existing) && json_tree(existing->0@) is Obj {
        json_tree(existing->0@)->Obj_0
    } else {
        Map::empty()
    }
}

/// The JSON of a ledger entry: `{"id": id, "stid_set": [cells], "attributes":
/// {tag: value}}`.
pub open spec fn entry_tree(id: Seq<char>, cells: Seq<Seq<char>>, attrs: Map<Seq<char>, Seq<char>>) -> JsonTree {
    JsonTree::Obj(
        map![
            "id"@ => JsonTree::Str(id),
            "stid_set"@ => JsonTree::Arr(cells.map_values(|c: Seq<char>| JsonTree::Str(c))),
            "attributes"@ => JsonTree::Obj(attrs.map_values(|v: Seq<char>| JsonTree::Str(v))),
        ],
    )
}

/// The JSON of the ledger entry of a record.
pub open spec fn record_tree(record: BuildingInfo) -> JsonTree {
    entry_tree(record.building_id@, string_views(record.stid_set@), record.attribute_info_map@)
}

/// The ledger object that the existing content holds: an empty object where
/// there is no content, only whitespace, or `null`.
pub fn load_ledger(existing: &Option<String>) -> (r: Result<serde_json::Map<String, serde_json::Value>, LedgerError>)
    ensures
        r is Ok <==> ledger_readable(*existing),
        r matches Ok(m) ==> object_members(m) == base_members(*existing),
        r matches Ok(m) ==> nested_within(JsonTree::Obj(object_members(m)), max_nesting()),
        r matches Err(LedgerError::Parse) <==> has_content(*existing) && !json_accepts(existing->0@),
        r matches Err(LedgerError::NotAnObject) <==> has_content(*existing) && json_accepts(existing->0@)
            && !(json_tree(existing->0@) is Obj) && !(json_tree(existing->0@) is Null),
{
    if !ledger_needs_parse(existing) {
        return Ok(new_object());
    }
    let text = match existing {
        Some(t) => t,
        None => {
            return Ok(new_object());
        },
    };
    match parse_json(text.as_str()) {
        Err(_) => Err(LedgerError::Parse),
        Ok(ParsedJson::Object(m)) => Ok(m),
        Ok(ParsedJson::Null) => Ok(new_object()),
        Ok(ParsedJson::Other) => Err(LedgerError::NotAnObject),
    }
}

/// The JSON object of the ledger entry of `record`.
pub fn entry_object(record: &BuildingInfo) -> (r: serde_json::Map<String, serde_json::Value>)
    requires
        record.wf(),
    ensures
        JsonTree::Obj(object_members(r)) == record_tree(*record),
{
    let entry = ledger_entry(record);
    let ghost want = record.attribute_info_map@;
    let mut attrs = new_object();
    let mut k: usize = 0;
    while k < entry.attributes.len()
        invariant
            k <= entry.attributes@.len(),
            forall|i: int| 0 <= i < entry.attributes@.len() ==> want.contains_key(#[trigger] entry.attributes@[i].0@) && want[entry.attributes@[i].0@] == entry.attributes@[i].1@,
            forall|i: int, j: int| 0 <= i < j < entry.attributes@.len() ==> entry.attributes@[i].0@ != entry.attributes@[j].0@,
            forall|j: int| 0 <= j < k ==> #[trigger] object_members(attrs).contains_key(entry.attributes@[j].0@)
                && object_members(attrs)[entry.attributes@[j].0@] == JsonTree::Str(entry.attributes@[j].1@),
            forall|key: Seq<char>| #[trigger] object_members(attrs).contains_key(key) ==> exists|j: int| 0 <= j < k && entry.attributes@[j].0@ == key,
        decreases entry.attributes.len() - k,
    {
        let ghost before = object_members(attrs);
        insert_string(&mut attrs, entry.attributes[k].0.clone(), entry.attributes[k].1.clone());
        proof {
            assert forall|j: int| 0 <= j < k + 1 implies #[trigger] object_members(attrs).contains_key(entry.attributes@[j].0@)
                && object_members(attrs)[entry.attributes@[j].0@] == JsonTree::Str(entry.attributes@[j].1@) by {
                if j < k {
                    assert(entry.attributes@[j].0@ != entry.attributes@[k as int].0@);
                }
            }
            assert forall|key: Seq<char>| #[trigger] object_members(attrs).contains_key(key) implies exists|j: int| 0 <= j < k + 1 && entry.attributes@[j].0@ == key by {
                if key != entry.attributes@[k as int].0@ {
                    assert(before.contains_key(key));
                }
            }
        }
        k = k + 1;
    }
    assert(object_members(attrs) =~= want.map_values(|v: Seq<char>| JsonTree::Str(v))) by {
        assert forall|key: Seq<char>| #[trigger] want.contains_key(key) implies object_members(attrs).contains_key(key) by {
            let i = choose|i: int| 0 <= i < entry.attributes@.len() && entry.attributes@[i].0@ == key;
            assert(object_members(attrs).contains_key(entry.attributes@[i].0@));
        }
        assert forall|key: Seq<char>| #[trigger] object_members(attrs).contains_key(key) implies want.contains_key(key)
            && object_members(attrs)[key] == JsonTree::Str(want[key]) by {
            let j = choose|j: int| 0 <= j < k && entry.attributes@[j].0@ == key;
            assert(want.contains_key(entry.attributes@[j].0@));
        }
    }
    let ghost cells = entry.stid_set@;
    let mut obj = new_object();
    insert_string(&mut obj, "id".to_owned(), entry.id);
    insert_strings(&mut obj, "stid_set".to_owned(), entry.stid_set);
    insert_object(&mut obj, "attributes".to_owned(), attrs);
    assert(cells.map_values(|s: String| JsonTree::Str(s@)) =~= string_views(record.stid_set@).map_values(
        |c: Seq<char>| JsonTree::Str(c),
    )) by {
        assert forall|i: int| 0 <= i < cells.len() implies cells[i]@ == string_views(record.stid_set@)[i] by {
            assert(string_views(cells)[i] == cells[i]@);
        }
    }
    assert(object_members(obj) =~= record_tree(*record)->Obj_0);
    obj
}

/// Puts the entry of `record` into the ledger under the key of `count`,
/// replacing an entry already there and keeping all others.
pub fn add_entry(ledger: &mut serde_json::Map<String, serde_json::Value>, count: u32, record: &BuildingInfo)
    requires
        record.wf(),
    ensures
        object_members(*final(ledger)) == object_members(*old(ledger)).insert(decimal(count as nat), record_tree(*record)),
{
    let obj = entry_object(record);
    insert_object(ledger, entry_key(count), obj);
}

/// The ledger text after saving `record` as the `count`-th building of a run
/// into the existing content: the existing members, with the entry of `record`
/// under the decimal key of `count` in place of any entry there. Each run
/// counts from zero, so saving again in a new run replaces the entry under
/// `"0"`.
pub fn append_record(existing: &Option<String>, count: u32, record: &BuildingInfo) -> (r: Result<String, LedgerError>)
    requires
        record.wf(),
    ensures
        r is Ok <==> ledger_readable(*existing),
        r matches Err(LedgerError::Parse) <==> has_content(*existing) && !json_accepts(existing->0@),
        r matches Err(LedgerError::NotAnObject) <==> has_content(*existing) && json_accepts(existing->0@)
            && !(json_tree(existing->0@) is Obj) && !(json_tree(existing->0@) is Null),
        r matches Ok(t) ==> json_accepts(t@) && json_tree(t@) == JsonTree::Obj(
            base_members(*existing).insert(decimal(count as nat), record_tree(*record)),
        ),
{
    match load_ledger(existing) {
        Ok(mut ledger) => {
            let ghost base = object_members(ledger);
            add_entry(&mut ledger, count, record);
            proof {
                lemma_entry_shallow(*record);
                let merged = base.insert(decimal(count as nat), record_tree(*record));
                assert forall|k: Seq<char>| #[trigger] merged.contains_key(k) implies nested_within(
                    merged[k],
                    (max_nesting() - 1) as nat,
                ) by {
                    if k != decimal(count as nat) {
                        assert(base.contains_key(k));
                    }
                }
                assert(object_members(ledger) == merged);
            }
            Ok(render_object(ledger))
        },
        Err(e) => Err(e),
    }
}

proof fn lemma_entry_shallow(record: BuildingInfo)
    ensures
        nested_within(record_tree(record), (max_nesting() - 1) as nat),
{
    reveal_with_fuel(nested_within, 3);
    let t = record_tree(record);
    let m = t->Obj_0;
    assert forall|k: Seq<char>| #[trigger] m.contains_key(k) implies nested_within(m[k], 125) by {
        let cells = string_views(record.stid_set@).map_values(|c: Seq<char>| JsonTree::Str(c));
        let attrs = record.attribute_info_map@.map_values(|v: Seq<char>| JsonTree::Str(v));
        assert forall|i: int| 0 <= i < cells.len() implies nested_within(#[trigger] cells[i], 124) by {}
        assert forall|a: Seq<char>| #[trigger] attrs.contains_key(a) implies nested_within(attrs[a], 124) by {}
    }
}

/// A new run saves its building under `"0"`: into a ledger whose only key is
/// `"0"` (as an earlier run leaves it), saving replaces that entry and adds no
/// key; into an absent or blank ledger, it gives the one entry under `"0"`.
pub proof fn lemma_new_run_overwrites_first_entry(old_members: Map<Seq<char>, JsonTree>, entry: JsonTree)
    requires
        old_members.dom() == set!["0"@],
    ensures
        old_members.insert(decimal(0), entry) == map!["0"@ => entry],
        base_members(None).insert(decimal(0), entry) == map!["0"@ => entry],
{
    reveal_strlit("0");
    assert(decimal(0) =~= "0"@);
    assert(old_members.insert(decimal(0), entry) =~= map!["0"@ => entry]);
    assert(base_members(None).insert(decimal(0), entry) =~= map!["0"@ => entry]);
}

/// One entry of the ledger, as plain values: the building's id, its cell
/// identifiers, and its attributes by tag name.
pub struct LedgerEntry {
    pub id: String,
    pub stid_set: Vec<String>,
    pub attributes: Vec<(String, String)>,
}

/// The ledger entry of a record.
pub fn ledger_entry(record: &BuildingInfo) -> (r: LedgerEntry)
    requires
        record.wf(),
    ensures
        r.id@ == record.building_id@,
        string_views(r.stid_set@) == string_views(record.stid_set@),
        distinct(r.stid_set@),
        forall|i: int| 0 <= i < r.attributes@.len() ==> record.attribute_info_map@.contains_key(#[trigger] r.attributes@[i].0@) && record.attribute_info_map@[r.attributes@[i].0@] == r.attributes@[i].1@,
        forall|k: Seq<char>| #[trigger] record.attribute_info_map@.contains_key(k) ==> exists|i: int| 0 <= i < r.attributes@.len() && r.attributes@[i].0@ == k,
        forall|i: int, j: int| 0 <= i < j < r.attributes@.len() ==> r.attributes@[i].0@ != r.attributes@[j].0@,
{
    let mut stid_set: Vec<String> = Vec::new();
    let mut i: usize = 0;
    while i < record.stid_set.len()
        invariant
            i <= record.stid_set@.len(),
            stid_set@.len() == i,
            forall|j: int| 0 <= j < i ==> #[trigger] stid_set@[j]@ == record.stid_set@[j]@,
        decreases record.stid_set.len() - i,
    {
        stid_set.push(record.stid_set[i].clone());
        i = i + 1;
    }
    assert(string_views(stid_set@) =~= string_views(record.stid_set@));
    let entries = record.attribute_info_map.entries();
    let mut attributes: Vec<(String, String)> = Vec::new();
    let mut k: usize = 0;
    while k < entries.len()
        invariant
            forall|key: Seq<char>| #[trigger] record.attribute_info_map@.contains_key(key) ==> exists|i: int| 0 <= i < entries@.len() && entries@[i].0@ == key,
            k <= entries@.len(),
            attributes@.len() == k,
            forall|j: int| 0 <= j < k ==> #[trigger] attributes@[j].0@ == entries@[j].0@ && attributes@[j].1@ == entries@[j].1@,
        decreases entries.len() - k,
    {
        attributes.push((entries[k].0.clone(), entries[k].1.clone()));
        k = k + 1;
    }
    assert forall|key: Seq<char>| #[trigger] record.attribute_info_map@.contains_key(key) implies exists|i: int|
        0 <= i < attributes@.len() && attributes@[i].0@ == key by {
        let i = choose|i: int| 0 <= i < entries@.len() && entries@[i].0@ == key;
        assert(attributes@[i].0@ == key);
    }
    let r = LedgerEntry { id: record.building_id.clone(), stid_set, attributes };
    assert(r.attributes@ == attributes@);
    r
}

} // verus!
