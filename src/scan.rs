//! The scan of a CityGML document for its first building: scope tracking over
//! markup events, attribute resolution against code lists, and the cells of
//! the building's boundary rings.
use crate::geometry::{
    all_float_literals,
    add_cells, cell_set, cells_for_ring, distinct, fan_size, parse_points, points_view, triples,
    union_all, FormatError, Point,
};
use crate::markup::MarkupEvent;
use crate::text::words;
use crate::textmap::TextMap;
use vstd::prelude::*;
use vstd::string::StrSliceExecFns;

verus! {

/// The zoom level at which boundary rings are covered with cells.
pub const CELL_ZOOM: u8 = 18;

/// What one building of the document yields.
pub struct BuildingInfo {
    /// The building's `gml:id`; empty where it has none.
    pub building_id: String,
    /// The cells its boundary rings cover, each once.
    pub stid_set: Vec<String>,
    /// Extension attributes by tag name, with codes resolved where a code list
    /// gives them.
    pub attribute_info_map: TextMap,
}

impl BuildingInfo {
    pub open spec fn wf(&self) -> bool {
        distinct(self.stid_set@) && self.attribute_info_map.wf()
    }

    pub fn new() -> (r: BuildingInfo)
        ensures
            r.wf(),
            r.building_id@.len() == 0,
            r.stid_set@.len() == 0,
            r.attribute_info_map@ == Map::<Seq<char>, Seq<char>>::empty(),
    {
        BuildingInfo { building_id: String::new(), stid_set: Vec::new(), attribute_info_map: TextMap::new() }
    }
}

/// A hook for further attribute information; it does nothing.
#[allow(non_snake_case)]
pub fn addAttributeInfo() {
}

/// Records `value` under the attribute tag `tag`, replacing an earlier value.
pub fn record_attribute(record: &mut BuildingInfo, tag: String, value: String)
    requires
        old(record).wf(),
    ensures
        final(record).wf(),
        final(record).attribute_info_map@ == old(record).attribute_info_map@.insert(tag@, value@),
        final(record).building_id == old(record).building_id,
        final(record).stid_set == old(record).stid_set,
{
    record.attribute_info_map.insert(tag, value);
}

/// What the caller of a scan step is to do next.
pub enum ScanAction {
    /// Nothing; go on with the next event.
    Continue,
    /// An extension attribute names a code list by this reference, relative to the
    /// document's directory: read it and hand its map to `use_code_list`.
    ResolveCodeSpace { reference: String },
    /// A boundary ring: cover each triangle of `fan_triangles(points)` at
    /// `CELL_ZOOM` and hand the cells to `add_ring_cells`.
    CoverRing { points: Vec<Point> },
    /// The building has closed and the record is complete; stop scanning.
    Finished,
}

pub open spec fn is_building_tag(name: Seq<char>) -> bool {
    name == "bldg:Building"@
}

pub open spec fn is_ring_tag(name: Seq<char>) -> bool {
    name == "gml:posList"@
}

/// Vendor-extension elements: names of the form `uro:` followed by anything but
/// a line break.
pub open spec fn is_extension_tag(name: Seq<char>) -> bool {
    &&& name.len() >= 4
    &&& name.take(4) == "uro:"@
    &&& forall|i: int| 4 <= i < name.len() ==> name[i] != '\n'
}

fn text_is(s: &String, lit: &str) -> (r: bool)
    ensures
        r == (s@ == lit@),
{
    *s == lit.to_owned()
}

pub fn extension_tag(name: &str) -> (r: bool)
    ensures
        r == is_extension_tag(name@),
{
    let n = name.unicode_len();
    if n < 4 || name.substring_char(0, 4).to_owned() != "uro:".to_owned() {
        return false;
    }
    let mut i: usize = 4;
    while i < n
        invariant
            n == name@.len(),
            4 <= i <= n,
            forall|j: int| 4 <= j < i ==> name@[j] != '\n',
        decreases n - i,
    {
        if name.get_char(i) == '\n' {
            return false;
        }
        i = i + 1;
    }
    true
}

/// The value of the last attribute whose key is `key`.
pub open spec fn last_value(attrs: Seq<(String, String)>, key: Seq<char>) -> Option<Seq<char>>
    decreases attrs.len(),
{
    if attrs.len() == 0 {
        None
    } else if attrs.last().0@ == key {
        Some(attrs.last().1@)
    } else {
        last_value(attrs.drop_last(), key)
    }
}

/// The value of the first attribute whose key is `key`.
pub open spec fn first_value(attrs: Seq<(String, String)>, key: Seq<char>) -> Option<Seq<char>>
    decreases attrs.len(),
{
    if attrs.len() == 0 {
        None
    } else if attrs[0].0@ == key {
        Some(attrs[0].1@)
    } else {
        first_value(attrs.drop_first(), key)
    }
}

fn find_last<'a>(attrs: &'a Vec<(String, String)>, key: &str) -> (r: Option<&'a String>)
    ensures
        match r {
            Some(v) => last_value(attrs@, key@) == Some(v@),
            None => last_value(attrs@, key@) is None,
        },
{
    let mut i: usize = attrs.len();
    assert(attrs@.take(i as int) =~= attrs@);
    while i > 0
        invariant
            i <= attrs@.len(),
            last_value(attrs@, key@) == last_value(attrs@.take(i as int), key@),
        decreases i,
    {
        let ghost pre = attrs@.take(i as int);
        assert(pre.drop_last() =~= attrs@.take(i - 1));
        if text_is(&attrs[i - 1].0, key) {
            return Some(&attrs[i - 1].1);
        }
        i = i - 1;
    }
    None
}

fn find_first<'a>(attrs: &'a Vec<(String, String)>, key: &str) -> (r: Option<&'a String>)
    ensures
        match r {
            Some(v) => first_value(attrs@, key@) == Some(v@),
            None => first_value(attrs@, key@) is None,
        },
{
    let mut i: usize = 0;
    assert(attrs@.skip(0) =~= attrs@);
    while i < attrs.len()
        invariant
            i <= attrs@.len(),
            first_value(attrs@, key@) == first_value(attrs@.skip(i as int), key@),
        decreases attrs.len() - i,
    {
        let ghost post = attrs@.skip(i as int);
        assert(post.drop_first() =~= attrs@.skip(i + 1));
        if text_is(&attrs[i].0, key) {
            return Some(&attrs[i].1);
        }
        i = i + 1;
    }
    None
}

/// The scan's state. It is idle until the first building opens, inside the
/// building until it closes, and finished after that; within the building an
/// extension attribute may be open, with the code list it refers to.
pub struct BuildingScan {
    pub in_building: bool,
    pub in_extension: bool,
    pub finished: bool,
    /// The element that opened last and has not closed since.
    pub current_tag: Option<String>,
    /// The code list of the open extension attribute, once resolved.
    pub code_list: Option<TextMap>,
    pub record: BuildingInfo,
}

/// The description of `code` in the code list, if one is held and gives it;
/// otherwise the code itself.
pub open spec fn resolved(code_list: Option<TextMap>, code: Seq<char>) -> Seq<char> {
    match code_list {
        Some(m) => if m@.contains_key(code) {
            m@[code]
        } else {
            code
        },
        None => code,
    }
}

pub open spec fn opt_view(t: Option<String>) -> Option<Seq<char>> {
    match t {
        Some(s) => Some(s@),
        None => None,
    }
}

impl BuildingScan {
    pub open spec fn wf(&self) -> bool {
        &&& self.record.wf()
        &&& (self.code_list matches Some(m) ==> m.wf())
    }

    /// The state before any event.
    pub fn new() -> (r: BuildingScan)
        ensures
            r.wf(),
            !r.in_building && !r.in_extension && !r.finished,
            r.current_tag is None,
            r.code_list is None,
            r.record.building_id@.len() == 0,
            r.record.stid_set@.len() == 0,
            r.record.attribute_info_map@ == Map::<Seq<char>, Seq<char>>::empty(),
    {
        BuildingScan {
            in_building: false,
            in_extension: false,
            finished: false,
            current_tag: None,
            code_list: None,
            record: BuildingInfo::new(),
        }
    }

    /// An element opens. The first building's opening takes its `gml:id`; an
    /// extension attribute's opening drops the code list held so far and asks
    /// for the one its `codeSpace` names, if any.
    pub fn on_start(&mut self, name: &String, attrs: &Vec<(String, String)>) -> (r: ScanAction)
        requires
            old(self).wf(),
        ensures
            final(self).wf(),
            old(self).finished ==> *final(self) == *old(self) && r is Finished,
            !old(self).finished ==> {
                let opens = is_building_tag(name@) && !old(self).in_building;
                let ext = is_extension_tag(name@);
                &&& !final(self).finished
                &&& opt_view(final(self).current_tag) == Some(name@)
                &&& final(self).in_building == (old(self).in_building || opens)
                &&& final(self).record.building_id@ == if opens && last_value(attrs@, "gml:id"@) is Some {
                    last_value(attrs@, "gml:id"@)->0
                } else {
                    old(self).record.building_id@
                }
                &&& final(self).record.stid_set == old(self).record.stid_set
                &&& final(self).record.attribute_info_map@ == old(self).record.attribute_info_map@
                &&& final(self).in_extension == (old(self).in_extension || ext)
                &&& (ext ==> final(self).code_list is None)
                &&& (!ext ==> final(self).code_list == old(self).code_list)
                &&& match r {
                    ScanAction::ResolveCodeSpace { reference } => ext && first_value(attrs@, "codeSpace"@) == Some(reference@),
                    ScanAction::Continue => !(ext && first_value(attrs@, "codeSpace"@) is Some),
                    _ => false,
                }
            },
    {
        if self.finished {
            return ScanAction::Finished;
        }
        self.current_tag = Some(name.clone());
        if text_is(name, "bldg:Building") && !self.in_building {
            self.in_building = true;
            match find_last(attrs, "gml:id") {
                Some(id) => {
                    self.record.building_id = id.clone();
                },
                None => {},
            }
        }
        if extension_tag(name.as_str()) {
            self.in_extension = true;
            self.code_list = None;
            match find_first(attrs, "codeSpace") {
                Some(reference) => {
                    return ScanAction::ResolveCodeSpace { reference: reference.clone() };
                },
                None => {},
            }
        }
        ScanAction::Continue
    }

    /// Hands over the code list that the open extension attribute refers to.
    pub fn use_code_list(&mut self, map: TextMap)
        requires
            old(self).wf(),
            map.wf(),
        ensures
            final(self).wf(),
            final(self).code_list == if old(self).in_extension && !old(self).finished {
                Some(map)
            } else {
                old(self).code_list
            },
            final(self).in_building == old(self).in_building,
            final(self).in_extension == old(self).in_extension,
            final(self).finished == old(self).finished,
            final(self).current_tag == old(self).current_tag,
            final(self).record == old(self).record,
    {
        if self.in_extension && !self.finished {
            self.code_list = Some(map);
        }
    }

    /// Text appears. Inside an extension attribute, the element's value is
    /// recorded under its tag, resolved where a code list is held and gives it,
    /// and verbatim otherwise. Inside the building, the text of a
    /// coordinate list is read as a ring of points to cover.
    pub fn on_text(&mut self, text: &String) -> (r: Result<ScanAction, FormatError>)
        requires
            old(self).wf(),
        ensures
            final(self).wf(),
            old(self).finished ==> *final(self) == *old(self) && r matches Ok(ScanAction::Finished),
            !old(self).finished ==> {
                &&& final(self).finished == old(self).finished
                &&& final(self).in_building == old(self).in_building
                &&& final(self).in_extension == old(self).in_extension
                &&& final(self).current_tag == old(self).current_tag
                &&& final(self).code_list == old(self).code_list
                &&& final(self).record.building_id == old(self).record.building_id
                &&& final(self).record.stid_set == old(self).record.stid_set
                &&& final(self).record.attribute_info_map@ == if old(self).in_building
                    && old(self).in_extension && old(self).current_tag is Some {
                    old(self).record.attribute_info_map@.insert(
                        old(self).current_tag->0@,
                        resolved(old(self).code_list, text@),
                    )
                } else {
                    old(self).record.attribute_info_map@
                }
                &&& if old(self).in_building && !old(self).in_extension && opt_view(
                    old(self).current_tag,
                ) == Some("gml:posList"@) {
                    match r {
                        Ok(ScanAction::CoverRing { points }) => all_float_literals(words(text@))
                            && words(text@).len() % 3 == 0 && points_view(points@) == triples(
                            words(text@),
                        ),
                        Err(FormatError::InvalidNumber) => !all_float_literals(words(text@)),
                        Err(FormatError::NotTriples) => all_float_literals(words(text@))
                            && words(text@).len() % 3 != 0,
                        _ => false,
                    }
                } else {
                    r matches Ok(ScanAction::Continue)
                }
            },
    {
        if self.finished {
            return Ok(ScanAction::Finished);
        }
        if !self.in_building {
            return Ok(ScanAction::Continue);
        }
        if self.in_extension {
            match &self.current_tag {
                Some(tag) => {
                    let value = match &self.code_list {
                        Some(m) => match m.get(text) {
                            Some(desc) => desc.clone(),
                            None => text.clone(),
                        },
                        None => text.clone(),
                    };
                    record_attribute(&mut self.record, tag.clone(), value);
                },
                None => {},
            }
            return Ok(ScanAction::Continue);
        }
        let ring = match &self.current_tag {
            Some(tag) => text_is(tag, "gml:posList"),
            None => false,
        };
        if !ring {
            return Ok(ScanAction::Continue);
        }
        match parse_points(text.as_str()) {
            Ok(points) => Ok(ScanAction::CoverRing { points }),
            Err(e) => Err(e),
        }
    }

    /// Hands over the cells of a ring that `CoverRing` asked for: `covers[i]`
    /// holds those of the `i`-th triangle of `fan_triangles(points)`. They join
    /// the building's cells, each kept once.
    pub fn add_ring_cells(&mut self, points: &Vec<Point>, covers: &Vec<Vec<String>>)
        requires
            old(self).wf(),
            covers@.len() == fan_size(points@.len() as int),
        ensures
            final(self).wf(),
            cell_set(final(self).record.stid_set@) == cell_set(old(self).record.stid_set@).union(
                union_all(covers@),
            ),
            final(self).record.building_id == old(self).record.building_id,
            final(self).record.attribute_info_map == old(self).record.attribute_info_map,
            final(self).in_building == old(self).in_building,
            final(self).in_extension == old(self).in_extension,
            final(self).finished == old(self).finished,
            final(self).current_tag == old(self).current_tag,
            final(self).code_list == old(self).code_list,
    {
        let cells = cells_for_ring(points, covers);
        add_cells(&mut self.record.stid_set, &cells);
    }

    /// An element closes. Closing the open element forgets it; closing an
    /// extension attribute drops its code list; closing the building completes
    /// the record and ends the scan.
    pub fn on_end(&mut self, name: &String) -> (r: ScanAction)
        requires
            old(self).wf(),
        ensures
            final(self).wf(),
            old(self).finished ==> *final(self) == *old(self) && r is Finished,
            !old(self).finished ==> {
                let ext_closes = old(self).in_extension && is_extension_tag(name@);
                let building_closes = old(self).in_building && is_building_tag(name@);
                &&& opt_view(final(self).current_tag) == if opt_view(old(self).current_tag) == Some(
                    name@,
                ) {
                    None
                } else {
                    opt_view(old(self).current_tag)
                }
                &&& final(self).in_extension == (old(self).in_extension && !ext_closes
                    && !building_closes)
                &&& final(self).code_list == if ext_closes {
                    None
                } else {
                    old(self).code_list
                }
                &&& final(self).in_building == (old(self).in_building && !building_closes)
                &&& final(self).finished == building_closes
                &&& final(self).record == old(self).record
                &&& if building_closes {
                    r is Finished
                } else {
                    r is Continue
                }
            },
    {
        if self.finished {
            return ScanAction::Finished;
        }
        let closes_current = match &self.current_tag {
            Some(tag) => *tag == *name,
            None => false,
        };
        if closes_current {
            self.current_tag = None;
        }
        if self.in_extension && extension_tag(name.as_str()) {
            self.in_extension = false;
            self.code_list = None;
        }
        if self.in_building && text_is(name, "bldg:Building") {
            self.in_building = false;
            self.in_extension = false;
            self.finished = true;
            return ScanAction::Finished;
        }
        ScanAction::Continue
    }
}

} // verus!
