use vstd::prelude::*;

use crate::map_loader::{resolved, ObjectKind, ObjectKindView};
use crate::text::{push_str, text_eq};
use crate::xml::{XmlDoc, XmlNodeView, attr, root_element, tagged_children, xml_document};

verus! {

// ------------------------------------------------------------------
// Objects collected, map by map
// ------------------------------------------------------------------

/// A cell position `(x, y)` of a collected object (world coordinates, truncated).
pub type Cell = (i32, i32);

/// The last entry of `es` for map `k`, if any.
pub open spec fn lookup(es: Seq<(Seq<char>, Seq<Cell>)>, k: Seq<char>) -> Option<Seq<Cell>>
    decreases es.len(),
{
    if es.len() == 0 {
        None
    } else if es.last().0 == k {
        Some(es.last().1)
    } else {
        lookup(es.drop_last(), k)
    }
}

/// For each map (by name), the positions of the objects collected there that stay collected.
pub struct CollectedObjects {
    entries: Vec<(String, Vec<Cell>)>,
}

impl View for CollectedObjects {
    type V = Map<Seq<char>, Seq<Cell>>;

    closed spec fn view(&self) -> Map<Seq<char>, Seq<Cell>> {
        let es = self.spec_entries();
        Map::new(|k: Seq<char>| lookup(es, k) is Some, |k: Seq<char>| lookup(es, k).unwrap())
    }
}

impl CollectedObjects {
    closed spec fn spec_entries(&self) -> Seq<(Seq<char>, Seq<Cell>)> {
        self.entries@.map_values(|e: (String, Vec<Cell>)| (e.0@, e.1@))
    }

    proof fn lemma_view(&self, k: Seq<char>)
        ensures
            self@.contains_key(k) == (lookup(self.spec_entries(), k) is Some),
            self@.contains_key(k) ==> self@[k] == lookup(self.spec_entries(), k).unwrap(),
    {
    }

    /// Nothing collected anywhere.
    pub fn new() -> (c: CollectedObjects)
        ensures
            c@ == Map::<Seq<char>, Seq<Cell>>::empty(),
    {
        let c = CollectedObjects { entries: Vec::new() };
        assert(c.spec_entries() =~= Seq::<(Seq<char>, Seq<Cell>)>::empty());
        assert(c@ =~= Map::<Seq<char>, Seq<Cell>>::empty());
        c
    }

    /// The positions recorded for map `name`.
    pub fn get(&self, name: &str) -> (r: Option<&Vec<Cell>>)
        ensures
            match r {
                Some(v) => self@.contains_key(name@) && self@[name@] == v@,
                None => !self@.contains_key(name@),
            },
    {
        let ghost es = self.spec_entries();
        let mut i = self.entries.len();
        assert(es.take(es.len() as int) == es);
        while i > 0
            invariant
                es == self.spec_entries(),
                i <= es.len(),
                lookup(es, name@) == lookup(es.take(i as int), name@),
            decreases i,
        {
            let ghost pre = es.take(i as int);
            assert(pre.last() == es[i - 1]);
            assert(es[i - 1] == (self.entries@[i - 1].0@, self.entries@[i - 1].1@));
            assert(pre.drop_last() == es.take(i - 1));
            if text_eq(self.entries[i - 1].0.as_str(), name) {
                proof {
                    self.lemma_view(name@);
                }
                return Some(&self.entries[i - 1].1);
            }
            i = i - 1;
        }
        proof {
            self.lemma_view(name@);
            assert(es.take(0) == Seq::<(Seq<char>, Seq<Cell>)>::empty());
        }
        None
    }

    /// Records `cells` for map `name`, replacing what was recorded for it.
    pub fn insert(&mut self, name: String, cells: Vec<Cell>)
        ensures
            final(self)@ == old(self)@.insert(name@, cells@),
    {
        let ghost k = name@;
        let ghost es0 = self.spec_entries();
        let mut i: usize = 0;
        while i < self.entries.len()
            invariant
                0 <= i <= self.entries@.len(),
                k == name@,
                forall|j: int| 0 <= j < i ==> (#[trigger] self.entries@[j]).0@ != k,
                forall|k2: Seq<char>| k2 != k ==> lookup(self.spec_entries(), k2) == lookup(es0, k2),
            decreases self.entries.len() - i,
        {
            if text_eq(self.entries[i].0.as_str(), name.as_str()) {
                let ghost before = self.spec_entries();
                let ghost before_e = self.entries@;
                assert(before[i as int] == (before_e[i as int].0@, before_e[i as int].1@));
                self.entries.remove(i);
                proof {
                    assert(self.entries@ == before_e.remove(i as int));
                    assert forall|j: int| 0 <= j < i implies (#[trigger] self.entries@[j]).0@ != k by {
                        assert(self.entries@[j] == before_e[j]);
                    }
                    assert(self.spec_entries() =~= before.remove(i as int));
                    assert forall|k2: Seq<char>| k2 != k implies lookup(self.spec_entries(), k2) == lookup(es0, k2) by {
                        lemma_lookup_remove(before, i as int, k2);
                    }
                }
            } else {
                i = i + 1;
            }
        }
        let ghost mid = self.spec_entries();
        proof {
            lemma_lookup_absent(mid, k);
        }
        self.entries.push((name, cells));
        proof {
            assert(self.spec_entries() =~= mid.push((k, cells@)));
            assert forall|k2: Seq<char>| #![auto] k2 != k implies lookup(self.spec_entries(), k2) == lookup(es0, k2) by {
                assert(self.spec_entries().drop_last() == mid);
            }
            assert(lookup(self.spec_entries(), k) == Some(cells@));
            assert forall|k2: Seq<char>| #![auto] self@.contains_key(k2) == old(self)@.insert(k, cells@).contains_key(k2) by {
                self.lemma_view(k2);
                old(self).lemma_view(k2);
            }
            assert forall|k2: Seq<char>| #![auto] self@.contains_key(k2) implies self@[k2] == old(self)@.insert(k, cells@)[k2] by {
                self.lemma_view(k2);
                old(self).lemma_view(k2);
            }
            assert(self@ =~= old(self)@.insert(k, cells@));
        }
    }

    /// A copy of the records.
    pub fn copy(&self) -> (c: CollectedObjects)
        ensures
            c@ == self@,
    {
        let mut entries: Vec<(String, Vec<Cell>)> = Vec::new();
        let mut i: usize = 0;
        while i < self.entries.len()
            invariant
                0 <= i <= self.entries@.len(),
                entries@.len() == i,
                forall|j: int| 0 <= j < i ==> (#[trigger] entries@[j]).0@ == self.entries@[j].0@ && entries@[j].1@ == self.entries@[j].1@,
            decreases self.entries.len() - i,
        {
            let cells = &self.entries[i].1;
            let mut copy: Vec<Cell> = Vec::new();
            let mut k: usize = 0;
            while k < cells.len()
                invariant
                    0 <= k <= cells@.len(),
                    copy@ == cells@.take(k as int),
                decreases cells.len() - k,
            {
                copy.push(cells[k]);
                assert(cells@.take(k + 1) == cells@.take(k as int).push(cells@[k as int]));
                k = k + 1;
            }
            assert(cells@.take(cells@.len() as int) == cells@);
            entries.push((self.entries[i].0.clone(), copy));
            i = i + 1;
        }
        let c = CollectedObjects { entries };
        assert(c.spec_entries() =~= self.spec_entries());
        assert(c@ =~= self@);
        c
    }

    /// All the records: every map that has one appears, with what is recorded for it.
    pub fn to_pairs(&self) -> (r: Vec<(String, Vec<Cell>)>)
        ensures
            forall|j: int| 0 <= j < r@.len() ==> #[trigger] self@.contains_key(r@[j].0@) && self@[r@[j].0@] == r@[j].1@,
            forall|k: Seq<char>| self@.contains_key(k) ==> exists|j: int| 0 <= j < r@.len() && (#[trigger] r@[j]).0@ == k,
    {
        let ghost es = self.spec_entries();
        let mut r: Vec<(String, Vec<Cell>)> = Vec::new();
        let mut i = self.entries.len();
        while i > 0
            invariant
                i <= self.entries@.len(),
                es == self.spec_entries(),
                forall|j: int| 0 <= j < r@.len() ==> #[trigger] self@.contains_key(r@[j].0@) && self@[r@[j].0@] == r@[j].1@,
                forall|m: int|
                    #![trigger es[m]]
                    i <= m < es.len() ==> exists|j: int| 0 <= j < r@.len() && (#[trigger] r@[j]).0@ == es[m].0,
            decreases i,
        {
            i = i - 1;
            let name = self.entries[i].0.clone();
            let found = self.get(name.as_str());
            match found {
                Some(cells) => {
                    let mut copy: Vec<Cell> = Vec::new();
                    let mut k: usize = 0;
                    while k < cells.len()
                        invariant
                            0 <= k <= cells@.len(),
                            copy@ == cells@.take(k as int),
                        decreases cells.len() - k,
                    {
                        copy.push(cells[k]);
                        assert(cells@.take(k + 1) == cells@.take(k as int).push(cells@[k as int]));
                        k = k + 1;
                    }
                    assert(cells@.take(cells@.len() as int) == cells@);
                    let ghost before = r@;
                    r.push((name, copy));
                    proof {
                        assert(r@[before.len() as int].0@ == es[i as int].0);
                        assert forall|m: int| #![trigger es[m]] i <= m < es.len() implies exists|j: int|
                            0 <= j < r@.len() && (#[trigger] r@[j]).0@ == es[m].0 by {
                            if m == i {
                                assert(r@[before.len() as int].0@ == es[m].0);
                            } else {
                                let j = choose|j: int| 0 <= j < before.len() && (#[trigger] before[j]).0@ == es[m].0;
                                assert(r@[j] == before[j]);
                            }
                        }
                    }
                },
                None => {
                    proof {
                        self.lemma_view(es[i as int].0);
                        lemma_lookup_has(es, i as int);
                    }
                },
            }
        }
        proof {
            assert forall|k: Seq<char>| self@.contains_key(k) implies exists|j: int|
                0 <= j < r@.len() && (#[trigger] r@[j]).0@ == k by {
                self.lemma_view(k);
                let m = lemma_lookup_some_entry(es, k);
            }
        }
        r
    }
}

/// Past the removed entry for another map, the lookups are those of before.
proof fn lemma_lookup_remove(es: Seq<(Seq<char>, Seq<Cell>)>, i: int, k2: Seq<char>)
    requires
        0 <= i < es.len(),
        es[i].0 != k2,
    ensures
        lookup(es.remove(i), k2) == lookup(es, k2),
    decreases es.len(),
{
    if i == es.len() - 1 {
        assert(es.remove(i) =~= es.drop_last());
    } else {
        assert(es.remove(i).drop_last() =~= es.drop_last().remove(i));
        assert(es.remove(i).last() == es.last());
        lemma_lookup_remove(es.drop_last(), i, k2);
    }
}

/// The map of an entry is always found.
proof fn lemma_lookup_has(es: Seq<(Seq<char>, Seq<Cell>)>, m: int)
    requires
        0 <= m < es.len(),
    ensures
        lookup(es, es[m].0) is Some,
    decreases es.len(),
{
    if m < es.len() - 1 && es.last().0 != es[m].0 {
        assert(es.drop_last()[m] == es[m]);
        lemma_lookup_has(es.drop_last(), m);
    }
}

/// A map that is found has an entry.
proof fn lemma_lookup_some_entry(es: Seq<(Seq<char>, Seq<Cell>)>, k: Seq<char>) -> (m: int)
    requires
        lookup(es, k) is Some,
    ensures
        0 <= m < es.len(),
        es[m].0 == k,
    decreases es.len(),
{
    if es.last().0 == k {
        es.len() - 1
    } else {
        let m = lemma_lookup_some_entry(es.drop_last(), k);
        assert(es[m] == es.drop_last()[m]);
        m
    }
}

/// A map without any entry is looked up in vain.
proof fn lemma_lookup_absent(es: Seq<(Seq<char>, Seq<Cell>)>, k: Seq<char>)
    requires
        forall|j: int| 0 <= j < es.len() ==> (#[trigger] es[j]).0 != k,
    ensures
        lookup(es, k) is None,
    decreases es.len(),
{
    if es.len() > 0 {
        assert(es.last() == es[es.len() - 1]);
        lemma_lookup_absent(es.drop_last(), k);
    }
}

/// An object of a loaded map, with its position truncated to whole pixels.
pub struct PlacedObject {
    pub kind: ObjectKind,
    pub x: i32,
    pub y: i32,
    pub collected: bool,
}

/// Objects whose collection is remembered across maps: heart pieces, chests and transitions.
pub open spec fn is_persistent(k: ObjectKindView) -> bool {
    k is HeartPiece || k is Chest || k is Transition
}

pub fn persistent(k: &ObjectKind) -> (b: bool)
    ensures
        b == is_persistent(k@),
{
    match k {
        ObjectKind::HeartPiece | ObjectKind::Chest { .. } | ObjectKind::Transition { .. } => true,
        _ => false,
    }
}

/// The positions of the collected persistent objects among `objs`, in order.
pub open spec fn saved_cells(objs: Seq<PlacedObject>) -> Seq<Cell>
    decreases objs.len(),
{
    if objs.len() == 0 {
        Seq::empty()
    } else {
        let before = saved_cells(objs.drop_last());
        let o = objs.last();
        if o.collected && is_persistent(o.kind@) {
            before.push((o.x, o.y))
        } else {
            before
        }
    }
}

/// Records, for map `map_name`, the positions of its collected heart pieces, chests and
/// transitions (replacing what was recorded for that map).
pub fn save_collected(objects: &[PlacedObject], map_name: &str, collected: &mut CollectedObjects)
    ensures
        final(collected)@ == old(collected)@.insert(map_name@, saved_cells(objects@)),
{
    let mut cells: Vec<Cell> = Vec::new();
    let mut i: usize = 0;
    assert(objects@.take(0) == Seq::<PlacedObject>::empty());
    while i < objects.len()
        invariant
            0 <= i <= objects@.len(),
            cells@ == saved_cells(objects@.take(i as int)),
        decreases objects.len() - i,
    {
        let o = &objects[i];
        assert(objects@.take(i + 1).drop_last() == objects@.take(i as int));
        assert(objects@.take(i + 1).last() == objects@[i as int]);
        if o.collected && persistent(&o.kind) {
            cells.push((o.x, o.y));
        }
        i = i + 1;
    }
    assert(objects@.take(objects@.len() as int) == objects@);
    collected.insert(String::from_str(map_name), cells);
}

/// Whether the object at `o` is to be marked collected on map `name`.
pub open spec fn restored(o: PlacedObject, name: Seq<char>, c: Map<Seq<char>, Seq<Cell>>) -> bool {
    is_persistent(o.kind@) && c.contains_key(name) && c[name].contains((o.x, o.y))
}

/// `o` marked collected when it is to be restored on map `name` (see [`restored`]).
pub open spec fn marked(o: PlacedObject, name: Seq<char>, c: Map<Seq<char>, Seq<Cell>>) -> PlacedObject {
    PlacedObject { collected: o.collected || restored(o, name, c), ..o }
}

/// The objects `objs` of map `name` once the records `c` are applied to them.
pub open spec fn applied(objs: Seq<PlacedObject>, name: Seq<char>, c: Map<Seq<char>, Seq<Cell>>) -> Seq<PlacedObject> {
    objs.map_values(|o: PlacedObject| marked(o, name, c))
}

/// Marks collected the heart pieces, chests and transitions of map `map_name` whose position
/// was recorded for it. Nothing else changes.
pub fn apply_collected(objects: &mut Vec<PlacedObject>, map_name: &str, collected: &CollectedObjects)
    ensures
        final(objects)@ == applied(old(objects)@, map_name@, collected@),
{
    let ghost c = collected@;
    match collected.get(map_name) {
        Some(cells) => {
            let mut i: usize = 0;
            while i < objects.len()
                invariant
                    0 <= i <= objects@.len(),
                    objects@.len() == old(objects)@.len(),
                    c == collected@,
                    c.contains_key(map_name@),
                    c[map_name@] == cells@,
                    forall|j: int|
                        0 <= j < old(objects)@.len() ==> (#[trigger] objects@[j]).kind == old(objects)@[j].kind
                            && objects@[j].x == old(objects)@[j].x && objects@[j].y == old(objects)@[j].y,
                    forall|j: int|
                        0 <= j < i ==> (#[trigger] objects@[j]).collected == (old(objects)@[j].collected
                            || restored(old(objects)@[j], map_name@, c)),
                    forall|j: int|
                        i <= j < old(objects)@.len() ==> (#[trigger] objects@[j]).collected == old(
                            objects,
                        )@[j].collected,
                decreases objects.len() - i,
            {
                if persistent(&objects[i].kind) {
                    let cell = (objects[i].x, objects[i].y);
                    let mut found = false;
                    let mut k: usize = 0;
                    while k < cells.len()
                        invariant
                            0 <= k <= cells@.len(),
                            found == (exists|w: int| 0 <= w < k && #[trigger] cells@[w] == cell),
                        decreases cells.len() - k,
                    {
                        if cells[k].0 == cell.0 && cells[k].1 == cell.1 {
                            found = true;
                        }
                        k = k + 1;
                    }
                    proof {
                        if found {
                            let w = choose|w: int| 0 <= w < k && #[trigger] cells@[w] == cell;
                            assert(cells@.contains(cell));
                        }
                    }
                    if found {
                        objects[i].collected = true;
                    }
                }
                i = i + 1;
            }
        },
        None => {},
    }
    proof {
        assert forall|j: int| 0 <= j < objects@.len() implies #[trigger] objects@[j] == marked(
            old(objects)@[j],
            map_name@,
            collected@,
        ) by {
            if !collected@.contains_key(map_name@) {
                assert(!restored(old(objects)@[j], map_name@, collected@));
            }
        }
        assert(objects@ =~= applied(old(objects)@, map_name@, collected@));
    }
}

/// `cell` is the position of a collected heart piece, chest or transition among `objs`.
pub open spec fn collected_at(objs: Seq<PlacedObject>, cell: Cell) -> bool {
    exists|i: int|
        0 <= i < objs.len() && (#[trigger] objs[i]).collected && is_persistent(objs[i].kind@) && (
        objs[i].x, objs[i].y) == cell
}

proof fn lemma_saved_cells_contains(objs: Seq<PlacedObject>, cell: Cell)
    ensures
        saved_cells(objs).contains(cell) == collected_at(objs, cell),
    decreases objs.len(),
{
    if objs.len() > 0 {
        let pre = objs.drop_last();
        lemma_saved_cells_contains(pre, cell);
        let o = objs.last();
        if collected_at(objs, cell) {
            let i = choose|i: int|
                0 <= i < objs.len() && (#[trigger] objs[i]).collected && is_persistent(objs[i].kind@)
                    && (objs[i].x, objs[i].y) == cell;
            if i < objs.len() - 1 {
                assert(pre[i] == objs[i]);
                assert(collected_at(pre, cell));
            }
        }
        if collected_at(pre, cell) {
            let i = choose|i: int|
                0 <= i < pre.len() && (#[trigger] pre[i]).collected && is_persistent(pre[i].kind@)
                    && (pre[i].x, pre[i].y) == cell;
            assert(objs[i] == pre[i]);
        }
        if o.collected && is_persistent(o.kind@) {
            assert(objs[objs.len() - 1] == o);
            assert(saved_cells(objs) == saved_cells(pre).push((o.x, o.y)));
            if (o.x, o.y) == cell {
                assert(saved_cells(objs)[saved_cells(pre).len() as int] == cell);
            }
            let sp = saved_cells(pre);
            if sp.contains(cell) {
                let k = choose|k: int| 0 <= k < sp.len() && sp[k] == cell;
                assert(saved_cells(objs)[k] == cell);
            }
            if saved_cells(objs).contains(cell) {
                let k = choose|k: int| 0 <= k < saved_cells(objs).len() && saved_cells(objs)[k] == cell;
                if k < sp.len() {
                    assert(sp[k] == cell);
                }
            }
        }
    }
}

/// Law: saving then restoring. Once the objects `objs` of map `name` are saved into the
/// records `c`, a heart piece, chest or transition of that map is restored as collected exactly
/// when a collected one of them stood at its position; the records of other maps are kept.
pub proof fn law_saved_objects_restored(
    objs: Seq<PlacedObject>,
    name: Seq<char>,
    c: Map<Seq<char>, Seq<Cell>>,
    o: PlacedObject,
    other: Seq<char>,
)
    ensures
        restored(o, name, c.insert(name, saved_cells(objs))) == (is_persistent(o.kind@)
            && collected_at(objs, (o.x, o.y))),
        other != name ==> c.insert(name, saved_cells(objs)).contains_key(other) == c.contains_key(other)
            && c.insert(name, saved_cells(objs))[other] == c[other],
{
    lemma_saved_cells_contains(objs, (o.x, o.y));
}

/// Law: saving the objects of a map and applying the records back to them changes nothing,
/// provided no two heart pieces, chests or transitions share a position.
pub proof fn law_save_then_apply_changes_nothing(
    objs: Seq<PlacedObject>,
    name: Seq<char>,
    c: Map<Seq<char>, Seq<Cell>>,
)
    requires
        forall|i: int, j: int|
            #![trigger objs[i], objs[j]]
            0 <= i < objs.len() && 0 <= j < objs.len() && i != j && is_persistent(objs[i].kind@)
                && is_persistent(objs[j].kind@) ==> objs[i].x != objs[j].x || objs[i].y != objs[j].y,
    ensures
        applied(objs, name, c.insert(name, saved_cells(objs))) == objs,
{
    let c2 = c.insert(name, saved_cells(objs));
    assert forall|i: int| 0 <= i < objs.len() implies #[trigger] marked(objs[i], name, c2) == objs[i] by {
        let o = objs[i];
        lemma_saved_cells_contains(objs, (o.x, o.y));
        if restored(o, name, c2) && !o.collected {
            let j = choose|j: int|
                0 <= j < objs.len() && (#[trigger] objs[j]).collected && is_persistent(objs[j].kind@)
                    && (objs[j].x, objs[j].y) == (o.x, o.y);
            assert(objs[i].x == objs[j].x && objs[i].y == objs[j].y);
        }
    }
    assert(applied(objs, name, c2) =~= objs);
}

/// Law: applying the records to the objects of a map a second time changes nothing more.
pub proof fn law_apply_collected_idempotent(
    objs: Seq<PlacedObject>,
    name: Seq<char>,
    c: Map<Seq<char>, Seq<Cell>>,
)
    ensures
        applied(applied(objs, name, c), name, c) == applied(objs, name, c),
{
    assert(applied(applied(objs, name, c), name, c) =~= applied(objs, name, c));
}

/// Law: what is recorded for a map is what is read back for it, and recording for one map
/// leaves the records of the others as they were.
pub proof fn law_records_read_back(c: Map<Seq<char>, Seq<Cell>>, name: Seq<char>, cells: Seq<Cell>, other: Seq<char>)
    ensures
        c.insert(name, cells).contains_key(name) && c.insert(name, cells)[name] == cells,
        other != name ==> c.insert(name, cells).contains_key(other) == c.contains_key(other),
        other != name && c.contains_key(other) ==> c.insert(name, cells)[other] == c[other],
{
}

// ------------------------------------------------------------------
// The tileset image
// ------------------------------------------------------------------

/// `Erreur XML: {error}`
pub open spec fn tsx_xml_message(e: Seq<char>) -> Seq<char> {
    "Erreur XML: "@ + e
}

/// The `source` attribute of the first `<image>` element of a tileset document.
pub open spec fn tsx_image_source(s: Seq<XmlNodeView>) -> Option<Seq<char>> {
    let images = tagged_children(s, root_element(s), "image"@);
    if images.len() == 0 {
        None
    } else {
        attr(s, images[0], "source"@)
    }
}

/// The path of the image of the tileset whose text is `content`, taken from the directory
/// of `tsx_path` (as [`resolve_relative_path`](crate::map_loader::resolve_relative_path) takes it). Refused when the document does not parse or names no image source.
pub fn png_path_from_tsx_source(tsx_path: &str, content: &str) -> (r: Result<String, String>)
    ensures
        match xml_document(content@) {
            Err(e) => r matches Err(m) && m@ == tsx_xml_message(e),
            Ok(s) => match tsx_image_source(s) {
                None => r matches Err(m) && m@ == "Attribut 'source' manquant dans <image> du TSX"@,
                Some(src) => r matches Ok(p) && resolved(tsx_path@, src, p@),
            },
        },
{
    let doc = match XmlDoc::parse(content) {
        Ok(d) => d,
        Err(e) => {
            let mut m = String::from_str("Erreur XML: ");
            push_str(&mut m, e.as_str());
            return Err(m);
        },
    };
    let ghost s = doc.spec_nodes();
    let root = doc.root_element();
    let source = match doc.first_child_named(root, "image") {
        Some(img) => {
            proof {
                crate::xml::lemma_tagged_children_in_range(s, root as int, "image"@);
            }
            doc.attribute(img, "source")
        },
        None => None,
    };
    match source {
        Some(src) => Ok(crate::map_loader::resolve_relative_path(tsx_path, src.as_str())),
        None => Err(String::from_str("Attribut 'source' manquant dans <image> du TSX")),
    }
}

} // verus!
