use std::collections::HashMap;

use vstd::prelude::*;

use crate::text::{decimal, parse_unsigned, parse_unsigned_chars, chars_of, push_decimal, push_str, text_eq};
use crate::xml::{XmlDoc, XmlNodeView, xml_document, attr, tagged_children, root_element, opt_view, lemma_tagged_children_in_range};

verus! {

broadcast use vstd::std_specs::hash::group_hash_axioms;

/// What a tile of the tileset is, as far as movement is concerned.
#[derive(Debug, Clone, Copy, PartialEq, Eq, Structural)]
pub enum TileKind {
    Walkable,
    Solid,
    Water,
    Door,
    Stairs,
}

/// Whether a tile of this kind stops a walker.
pub open spec fn kind_blocks(k: TileKind) -> bool {
    k == TileKind::Solid || k == TileKind::Water || k == TileKind::Door
}

/// The kind that the value `s` of a tile's `kind` property names; anything unknown is walkable.
pub open spec fn kind_from_text(s: Seq<char>) -> TileKind {
    if s == seq!['s', 'o', 'l', 'i', 'd'] {
        TileKind::Solid
    } else if s == seq!['w', 'a', 't', 'e', 'r'] {
        TileKind::Water
    } else if s == seq!['d', 'o', 'o', 'r'] {
        TileKind::Door
    } else if s == seq!['s', 't', 'a', 'i', 'r', 's'] {
        TileKind::Stairs
    } else {
        TileKind::Walkable
    }
}

impl TileKind {
    pub fn is_blocking(&self) -> (b: bool)
        ensures
            b == kind_blocks(*self),
    {
        match self {
            TileKind::Solid | TileKind::Water | TileKind::Door => true,
            _ => false,
        }
    }

    /// The kind named by the value of the `kind` property in a tileset.
    pub fn from_str(s: &str) -> (k: TileKind)
        ensures
            k == kind_from_text(s@),
    {
        proof {
            reveal_strlit("solid");
            reveal_strlit("water");
            reveal_strlit("door");
            reveal_strlit("stairs");
            assert("solid"@ =~= seq!['s', 'o', 'l', 'i', 'd']);
            assert("water"@ =~= seq!['w', 'a', 't', 'e', 'r']);
            assert("door"@ =~= seq!['d', 'o', 'o', 'r']);
            assert("stairs"@ =~= seq!['s', 't', 'a', 'i', 'r', 's']);
        }
        if text_eq(s, "solid") {
            TileKind::Solid
        } else if text_eq(s, "water") {
            TileKind::Water
        } else if text_eq(s, "door") {
            TileKind::Door
        } else if text_eq(s, "stairs") {
            TileKind::Stairs
        } else {
            TileKind::Walkable
        }
    }
}

/// The name and kind of one tile of a tileset.
#[derive(Debug)]
pub struct TileProperties {
    pub name: String,
    pub kind: TileKind,
}

/// The name a tile gets when the tileset does not name it: `Tuile {index}`.
pub open spec fn default_tile_name(index: u32) -> Seq<char> {
    seq!['T', 'u', 'i', 'l', 'e', ' '] + decimal(index as nat)
}

fn default_name(index: u32) -> (s: String)
    ensures
        s@ == default_tile_name(index),
{
    let mut s = String::new();
    push_str(&mut s, "Tuile ");
    push_decimal(&mut s, index as u64);
    proof {
        reveal_strlit("Tuile ");
        assert("Tuile "@ =~= seq!['T', 'u', 'i', 'l', 'e', ' ']);
    }
    s
}

/// The properties of the tiles of a tileset, by tile index.
pub struct TileTable {
    props: HashMap<u32, TileProperties>,
    pub tiles_per_row: u32,
}

impl TileTable {
    /// The table, as a map from tile index to (name, kind).
    pub closed spec fn entries(&self) -> Map<u32, (Seq<char>, TileKind)> {
        self.props@.map_values(|p: TileProperties| (p.name@, p.kind))
    }

    /// The number of tiles per row of the tileset image.
    pub closed spec fn columns(&self) -> u32 {
        self.tiles_per_row
    }

    /// The number of tiles per row (the field `tiles_per_row`), as [`TileTable::columns`]
    /// states it.
    pub fn tiles_per_row(&self) -> (c: u32)
        ensures
            c == self.columns(),
    {
        self.tiles_per_row
    }

    /// The name that [`TileTable::get`] gives tile `i`.
    pub open spec fn name_of(&self, i: u32) -> Seq<char> {
        if self.entries().contains_key(i) {
            self.entries()[i].0
        } else {
            default_tile_name(i)
        }
    }

    /// The kind that [`TileTable::get`] gives tile `i`: walkable when the tileset says nothing.
    pub open spec fn kind_of(&self, i: u32) -> TileKind {
        if self.entries().contains_key(i) {
            self.entries()[i].1
        } else {
            TileKind::Walkable
        }
    }

    /// A table with no described tile.
    pub fn new(tiles_per_row: u32) -> (t: TileTable)
        ensures
            t.entries() == Map::<u32, (Seq<char>, TileKind)>::empty(),
            t.columns() == tiles_per_row,
    {
        let t = TileTable { props: HashMap::new(), tiles_per_row };
        assert(t.entries() =~= Map::<u32, (Seq<char>, TileKind)>::empty());
        t
    }

    /// Describes tile `index` (a later description of the same tile replaces the earlier one).
    pub fn insert(&mut self, index: u32, props: TileProperties)
        ensures
            final(self).entries() == old(self).entries().insert(index, (props.name@, props.kind)),
            final(self).columns() == old(self).columns(),
    {
        self.props.insert(index, props);
        assert(self.entries() =~= old(self).entries().insert(index, (props.name@, props.kind)));
    }

    /// The properties of a tile; a tile the tileset does not describe is walkable.
    pub fn get(&self, tile_index: u32) -> (p: TileProperties)
        ensures
            p.name@ == self.name_of(tile_index),
            p.kind == self.kind_of(tile_index),
    {
        match self.props.get(&tile_index) {
            Some(p) => TileProperties { name: p.name.clone(), kind: p.kind },
            None => TileProperties { name: default_name(tile_index), kind: TileKind::Walkable },
        }
    }

    pub fn is_blocking(&self, tile_index: u32) -> (b: bool)
        ensures
            b == kind_blocks(self.kind_of(tile_index)),
    {
        self.get(tile_index).kind.is_blocking()
    }
}

/// Law: what is described for a tile is what the table gives back for it (a later
/// description replacing an earlier one), and describing a tile changes what no other tile
/// gives back. `after` is `before` once tile `index` is described as `(name, kind)` (as
/// [`TileTable::insert`] states it); [`TileTable::get`] gives back `name_of` and `kind_of`.
pub proof fn law_tile_table_read_back(
    before: TileTable,
    after: TileTable,
    index: u32,
    name: Seq<char>,
    kind: TileKind,
    other: u32,
)
    requires
        after.entries() == before.entries().insert(index, (name, kind)),
    ensures
        after.name_of(index) == name,
        after.kind_of(index) == kind,
        other != index ==> after.name_of(other) == before.name_of(other) && after.kind_of(other)
            == before.kind_of(other),
{
}

// ------------------------------------------------------------------
// Reading a tileset (.tsx)
// ------------------------------------------------------------------

pub open spec fn lit_tile() -> Seq<char> {
    seq!['t', 'i', 'l', 'e']
}

pub open spec fn lit_properties() -> Seq<char> {
    seq!['p', 'r', 'o', 'p', 'e', 'r', 't', 'i', 'e', 's']
}

pub open spec fn lit_property() -> Seq<char> {
    seq!['p', 'r', 'o', 'p', 'e', 'r', 't', 'y']
}

pub open spec fn lit_name() -> Seq<char> {
    seq!['n', 'a', 'm', 'e']
}

pub open spec fn lit_value() -> Seq<char> {
    seq!['v', 'a', 'l', 'u', 'e']
}

pub open spec fn lit_kind() -> Seq<char> {
    seq!['k', 'i', 'n', 'd']
}

/// An attribute's value, or "" when it is missing (`attribute(..).unwrap_or("")`).
pub open spec fn attr_or_empty(s: Seq<XmlNodeView>, j: int, name: Seq<char>) -> Seq<char> {
    match attr(s, j, name) {
        Some(v) => v,
        None => Seq::empty(),
    }
}

/// An optional text read as a `u32` (`.and_then(|v| v.parse().ok())`).
pub open spec fn parse_u32_opt(t: Option<Seq<char>>) -> Option<u32> {
    match t {
        Some(v) => match parse_unsigned(v, u32::MAX as nat) {
            Some(n) => Some(n as u32),
            None => None,
        },
        None => None,
    }
}

/// The (name, kind) of a tile after reading the `<property>` elements `props` in order:
/// `kind` sets the kind, `name` sets the name, any other property is ignored.
pub open spec fn apply_tile_props(
    s: Seq<XmlNodeView>,
    props: Seq<int>,
    start: (Seq<char>, TileKind),
) -> (Seq<char>, TileKind)
    decreases props.len(),
{
    if props.len() == 0 {
        start
    } else {
        let before = apply_tile_props(s, props.drop_last(), start);
        let p = props.last();
        let n = attr_or_empty(s, p, lit_name());
        let v = attr_or_empty(s, p, lit_value());
        if n == lit_kind() {
            (before.0, kind_from_text(v))
        } else if n == lit_name() {
            (v, before.1)
        } else {
            before
        }
    }
}

/// The (name, kind) that the `<tile>` element `t` with id `id` gives.
pub open spec fn tile_entry(s: Seq<XmlNodeView>, t: int, id: u32) -> (Seq<char>, TileKind) {
    let start = (default_tile_name(id), TileKind::Walkable);
    let groups = tagged_children(s, t, lit_properties());
    if groups.len() > 0 {
        apply_tile_props(s, tagged_children(s, groups[0], lit_property()), start)
    } else {
        start
    }
}

/// The table that the `<tile>` elements `tiles` describe, read in order.
pub open spec fn tile_entries(s: Seq<XmlNodeView>, tiles: Seq<int>) -> Map<u32, (Seq<char>, TileKind)>
    decreases tiles.len(),
{
    if tiles.len() == 0 {
        Map::empty()
    } else {
        let before = tile_entries(s, tiles.drop_last());
        let t = tiles.last();
        match parse_u32_opt(attr(s, t, seq!['i', 'd'])) {
            Some(id) => before.insert(id, tile_entry(s, t, id)),
            None => before,
        }
    }
}

/// The number of tiles per row of the tileset image: the `columns` attribute, 16 by default.
pub open spec fn tsx_columns(s: Seq<XmlNodeView>) -> u32 {
    match parse_u32_opt(attr(s, root_element(s), seq!['c', 'o', 'l', 'u', 'm', 'n', 's'])) {
        Some(c) => c,
        None => 16,
    }
}

/// The tile table that a tileset document describes.
pub open spec fn tsx_entries(s: Seq<XmlNodeView>) -> Map<u32, (Seq<char>, TileKind)> {
    tile_entries(s, tagged_children(s, root_element(s), lit_tile()))
}

/// The message of a refused XML document: `Erreur XML dans '{path}': {error}`.
pub open spec fn xml_error_message(path: Seq<char>, e: Seq<char>) -> Seq<char> {
    seq!['E', 'r', 'r', 'e', 'u', 'r', ' ', 'X', 'M', 'L', ' ', 'd', 'a', 'n', 's', ' ', '\'']
        + path + seq!['\'', ':', ' '] + e
}

pub fn xml_error(path: &str, e: &String) -> (m: String)
    ensures
        m@ == xml_error_message(path@, e@),
{
    let mut m = String::new();
    push_str(&mut m, "Erreur XML dans '");
    push_str(&mut m, path);
    push_str(&mut m, "': ");
    push_str(&mut m, e.as_str());
    proof {
        reveal_strlit("Erreur XML dans '");
        reveal_strlit("': ");
        assert("Erreur XML dans '"@ =~= seq!['E', 'r', 'r', 'e', 'u', 'r', ' ', 'X', 'M', 'L', ' ', 'd', 'a', 'n', 's', ' ', '\'']);
        assert("': "@ =~= seq!['\'', ':', ' ']);
    }
    m
}

/// Reads an optional attribute value as a `u32`.
pub fn parse_u32_opt_exec(t: &Option<String>) -> (r: Option<u32>)
    ensures
        r == parse_u32_opt(opt_view(*t)),
{
    match t {
        Some(v) => {
            let cs = chars_of(v.as_str());
            match parse_unsigned_chars(&cs, 0, cs.len(), 0xffff_ffffu64) {
                Some(n) => {
                    assert(cs@.subrange(0, cs@.len() as int) == v@);
                    Some(n as u32)
                },
                None => {
                    assert(cs@.subrange(0, cs@.len() as int) == v@);
                    None
                },
            }
        },
        None => None,
    }
}

fn string_or_empty(o: Option<String>) -> (s: String)
    ensures
        s@ == (match opt_view(o) {
            Some(v) => v,
            None => Seq::<char>::empty(),
        }),
{
    match o {
        Some(v) => v,
        None => String::new(),
    }
}

impl TileTable {
    /// The (name, kind) of the `<tile>` element `t` whose id is `id`.
    fn read_tile(doc: &XmlDoc, t: usize, id: u32) -> (r: TileProperties)
        requires
            doc.wf(),
            t < doc.nodes@.len(),
        ensures
            (r.name@, r.kind) == tile_entry(doc.spec_nodes(), t as int, id),
    {
        let ghost s = doc.spec_nodes();
        let mut name = default_name(id);
        let mut kind = TileKind::Walkable;
        let groups = doc.children_named(t, "properties");
        proof {
            reveal_strlit("properties");
            assert("properties"@ =~= lit_properties());
            assert(groups@.map_values(|j: usize| j as int) == tagged_children(s, t as int, lit_properties()));
        }
        if groups.len() > 0 {
            let g = groups[0];
            assert(g as int == tagged_children(s, t as int, lit_properties())[0]);
            let props = doc.children_named(g, "property");
            let ghost ps = props@.map_values(|j: usize| j as int);
            proof {
                reveal_strlit("property");
                assert("property"@ =~= lit_property());
                assert(ps == tagged_children(s, g as int, lit_property()));
                lemma_tagged_children_in_range(s, g as int, lit_property());
                assert(ps.take(0) == Seq::<int>::empty());
            }
            let mut i: usize = 0;
            while i < props.len()
                invariant
                    s == doc.spec_nodes(),
                    ps == props@.map_values(|j: usize| j as int),
                    forall|m: int| 0 <= m < ps.len() ==> 0 <= #[trigger] ps[m] < s.len(),
                    0 <= i <= ps.len(),
                    (name@, kind) == apply_tile_props(s, ps.take(i as int), (default_tile_name(id), TileKind::Walkable)),
                decreases props.len() - i,
            {
                let p = props[i];
                assert(ps[i as int] == p as int);
                let n = string_or_empty(doc.attribute(p, "name"));
                let v = string_or_empty(doc.attribute(p, "value"));
                proof {
                    reveal_strlit("name");
                    reveal_strlit("value");
                    reveal_strlit("kind");
                    assert("name"@ =~= lit_name());
                    assert("value"@ =~= lit_value());
                    assert("kind"@ =~= lit_kind());
                    assert(ps.take(i + 1).drop_last() == ps.take(i as int));
                    assert(ps.take(i + 1).last() == p as int);
                }
                if text_eq(n.as_str(), "kind") {
                    kind = TileKind::from_str(v.as_str());
                } else if text_eq(n.as_str(), "name") {
                    name = v;
                }
                i = i + 1;
            }
            assert(ps.take(ps.len() as int) == ps);
        }
        TileProperties { name, kind }
    }

    /// Builds the table from the text of a tileset file (`path` is only used in messages).
    pub fn from_tsx_source(path: &str, content: &str) -> (r: Result<TileTable, String>)
        ensures
            match xml_document(content@) {
                Err(e) => r matches Err(m) && m@ == xml_error_message(path@, e),
                Ok(s) => r matches Ok(t) && t.entries() == tsx_entries(s) && t.columns() == tsx_columns(s),
            },
    {
        let doc = match XmlDoc::parse(content) {
            Ok(d) => d,
            Err(e) => return Err(xml_error(path, &e)),
        };
        let ghost s = doc.spec_nodes();
        let root = doc.root_element();
        let tiles_per_row = match parse_u32_opt_exec(&doc.attribute(root, "columns")) {
            Some(c) => c,
            None => 16,
        };
        proof {
            reveal_strlit("columns");
            assert("columns"@ =~= seq!['c', 'o', 'l', 'u', 'm', 'n', 's']);
        }
        let mut table = TileTable::new(tiles_per_row);
        let tiles = doc.children_named(root, "tile");
        let ghost ts = tiles@.map_values(|j: usize| j as int);
        proof {
            reveal_strlit("tile");
            assert("tile"@ =~= lit_tile());
            lemma_tagged_children_in_range(s, root as int, lit_tile());
            assert(ts.take(0) == Seq::<int>::empty());
        }
        let mut i: usize = 0;
        while i < tiles.len()
            invariant
                s == doc.spec_nodes(),
                doc.wf(),
                ts == tiles@.map_values(|j: usize| j as int),
                ts == tagged_children(s, root as int, lit_tile()),
                forall|m: int| 0 <= m < ts.len() ==> 0 <= #[trigger] ts[m] < s.len(),
                0 <= i <= ts.len(),
                table.entries() == tile_entries(s, ts.take(i as int)),
                table.columns() == tiles_per_row,
            decreases tiles.len() - i,
        {
            let t = tiles[i];
            assert(ts[i as int] == t as int);
            proof {
                reveal_strlit("id");
                assert("id"@ =~= seq!['i', 'd']);
                assert(ts.take(i + 1).drop_last() == ts.take(i as int));
                assert(ts.take(i + 1).last() == t as int);
            }
            match parse_u32_opt_exec(&doc.attribute(t, "id")) {
                Some(id) => {
                    let p = TileTable::read_tile(&doc, t, id);
                    table.insert(id, p);
                },
                None => {},
            }
            i = i + 1;
        }
        assert(ts.take(ts.len() as int) == ts);
        Ok(table)
    }
}

/// Law: solid, water and door tiles stop a walker; walkable tiles and stairs do not. Read
/// from a tileset, a tile blocks exactly when its `kind` property is `solid`, `water` or `door`;
/// it is a door exactly when that property is `door`, and stairs exactly when it is `stairs`.
pub proof fn law_blocking_tiles(s: Seq<char>)
    ensures
        kind_blocks(TileKind::Solid),
        kind_blocks(TileKind::Water),
        kind_blocks(TileKind::Door),
        !kind_blocks(TileKind::Walkable),
        !kind_blocks(TileKind::Stairs),
        kind_blocks(kind_from_text(s)) == (s == seq!['s', 'o', 'l', 'i', 'd'] || s == seq!['w', 'a', 't', 'e', 'r']
            || s == seq!['d', 'o', 'o', 'r']),
        (kind_from_text(s) == TileKind::Door) == (s == seq!['d', 'o', 'o', 'r']),
        (kind_from_text(s) == TileKind::Stairs) == (s == seq!['s', 't', 'a', 'i', 'r', 's']),
{
}

} // verus!
