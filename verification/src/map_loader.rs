use vstd::prelude::*;

use crate::text::{all_digits, digit_char, digit_value, digits_value, is_digit, is_ws, text_eq, chars_of, decimal, trim_end, trim_start, lemma_split_by_nonempty, parse_unsigned, parse_unsigned_chars, push_decimal, push_str, ranges_text, split_by, split_ranges, strip_end, strip_end_bound, trim, trim_bounds};
use crate::enemy_type::EnemyKind;
use crate::npc::NpcKind;
use crate::tile_properties::{attr_or_empty, parse_u32_opt, parse_u32_opt_exec, xml_error, xml_error_message};
use crate::tilemap::{EMPTY_TILE, TileIndex, Tilemap};
use crate::xml::{
    XmlDoc, XmlNodeView, attr, first_named, lemma_tagged_children_in_range, opt_view, property_value,
    root_element, subtree_properties, tagged_children, xml_document,
};

verus! {

// ------------------------------------------------------------------
// CSV layers
// ------------------------------------------------------------------

/// `str::lines`, for text that is trimmed line by line afterwards: the pieces between the
/// line feeds, without a last empty piece.
pub open spec fn lines_of(s: Seq<char>) -> Seq<Seq<char>> {
    let q = split_by(s, seq!['\n']);
    if q.len() > 0 && q.last().len() == 0 {
        q.drop_last()
    } else {
        q
    }
}

/// The tile index that one CSV cell holds: a number that does not parse counts as 0, 0 is an
/// empty cell, and any other gid is made relative to the tileset (`saturating_sub(firstgid)`).
pub open spec fn cell_index(cell: Seq<char>, firstgid: u32) -> TileIndex {
    let raw: nat = match parse_unsigned(trim(cell), u32::MAX as nat) {
        Some(n) => n,
        None => 0,
    };
    if raw == 0 {
        EMPTY_TILE
    } else if raw >= firstgid {
        (raw - firstgid) as u32
    } else {
        0
    }
}

/// The CSV text of a line, once trimmed and rid of its trailing commas.
pub open spec fn csv_line(l: Seq<char>) -> Seq<char> {
    strip_end(trim(l), ',')
}

/// The tile indices of a non-empty CSV line.
pub open spec fn csv_row(line: Seq<char>, firstgid: u32) -> Seq<TileIndex> {
    split_by(line, seq![',']).map_values(|c: Seq<char>| cell_index(c, firstgid))
}

/// `Ligne {row} : {found} colonnes, attendu {expected}`
pub open spec fn width_message(row: nat, found: nat, expected: nat) -> Seq<char> {
    seq!['L', 'i', 'g', 'n', 'e', ' '] + decimal(row) + seq![' ', ':', ' '] + decimal(found)
        + seq![' ', 'c', 'o', 'l', 'o', 'n', 'n', 'e', 's', ',', ' ', 'a', 't', 't', 'e', 'n', 'd', 'u', ' ']
        + decimal(expected)
}

/// `{found} lignes trouvées, attendu {expected}`
pub open spec fn height_message(found: nat, expected: nat) -> Seq<char> {
    decimal(found) + seq![
        ' ',
        'l',
        'i',
        'g',
        'n',
        'e',
        's',
        ' ',
        't',
        'r',
        'o',
        'u',
        'v',
        'é',
        'e',
        's',
        ',',
        ' ',
        'a',
        't',
        't',
        'e',
        'n',
        'd',
        'u',
        ' ',
    ] + decimal(expected)
}

/// The rows that the first `n` lines give, or the message of the first line of wrong width.
pub open spec fn csv_rows_upto(ls: Seq<Seq<char>>, n: int, w: nat, firstgid: u32) -> Result<
    Seq<Seq<TileIndex>>,
    Seq<char>,
>
    decreases n,
{
    if n <= 0 {
        Ok(Seq::empty())
    } else {
        match csv_rows_upto(ls, n - 1, w, firstgid) {
            Err(e) => Err(e),
            Ok(rows) => {
                let line = csv_line(ls[n - 1]);
                if line.len() == 0 {
                    Ok(rows)
                } else {
                    let row = csv_row(line, firstgid);
                    if row.len() != w {
                        Err(width_message((n - 1) as nat, row.len(), w))
                    } else {
                        Ok(rows.push(row))
                    }
                }
            },
        }
    }
}

/// The grid of tile indices that a CSV layer of `w` columns and `h` rows holds; blank lines
/// are skipped, and a line of another width, or another number of lines, is refused.
pub open spec fn csv_layer(csv: Seq<char>, w: nat, h: nat, firstgid: u32) -> Result<
    Seq<Seq<TileIndex>>,
    Seq<char>,
> {
    let ls = lines_of(csv);
    match csv_rows_upto(ls, ls.len() as int, w, firstgid) {
        Err(e) => Err(e),
        Ok(rows) => if rows.len() == h {
            Ok(rows)
        } else {
            Err(height_message(rows.len(), h))
        },
    }
}

/// Every row that `csv_rows_upto` gives has width `w`.
pub proof fn lemma_csv_rows_width(ls: Seq<Seq<char>>, n: int, w: nat, firstgid: u32)
    ensures
        csv_rows_upto(ls, n, w, firstgid) matches Ok(rows) ==> forall|r: int|
            0 <= r < rows.len() ==> #[trigger] rows[r].len() == w,
    decreases n,
{
    if n > 0 {
        lemma_csv_rows_width(ls, n - 1, w, firstgid);
    }
}

/// Once a line is refused, the later lines change nothing.
pub proof fn lemma_csv_error_stays(ls: Seq<Seq<char>>, m: int, n: int, w: nat, firstgid: u32)
    requires
        m <= n,
        csv_rows_upto(ls, m, w, firstgid) is Err,
    ensures
        csv_rows_upto(ls, n, w, firstgid) == csv_rows_upto(ls, m, w, firstgid),
    decreases n - m,
{
    if n > m {
        lemma_csv_error_stays(ls, m, n - 1, w, firstgid);
    }
}

pub open spec fn grid_view(t: Seq<Vec<TileIndex>>) -> Seq<Seq<TileIndex>> {
    t.map_values(|row: Vec<TileIndex>| row@)
}

fn width_error(row: usize, found: usize, expected: usize) -> (m: String)
    ensures
        m@ == width_message(row as nat, found as nat, expected as nat),
{
    let mut m = String::new();
    push_str(&mut m, "Ligne ");
    push_decimal(&mut m, row as u64);
    push_str(&mut m, " : ");
    push_decimal(&mut m, found as u64);
    push_str(&mut m, " colonnes, attendu ");
    push_decimal(&mut m, expected as u64);
    proof {
        reveal_strlit("Ligne ");
        reveal_strlit(" : ");
        reveal_strlit(" colonnes, attendu ");
        assert("Ligne "@ =~= seq!['L', 'i', 'g', 'n', 'e', ' ']);
        assert(" : "@ =~= seq![' ', ':', ' ']);
        assert(" colonnes, attendu "@ =~= seq![' ', 'c', 'o', 'l', 'o', 'n', 'n', 'e', 's', ',', ' ', 'a', 't', 't', 'e', 'n', 'd', 'u', ' ']);
    }
    m
}

fn height_error(found: usize, expected: usize) -> (m: String)
    ensures
        m@ == height_message(found as nat, expected as nat),
{
    let mut m = String::new();
    push_decimal(&mut m, found as u64);
    push_str(&mut m, " lignes trouvées, attendu ");
    push_decimal(&mut m, expected as u64);
    proof {
        reveal_strlit(" lignes trouvées, attendu ");
        assert(" lignes trouvées, attendu "@ =~= seq![
            ' ',
            'l',
            'i',
            'g',
            'n',
            'e',
            's',
            ' ',
            't',
            'r',
            'o',
            'u',
            'v',
            'é',
            'e',
            's',
            ',',
            ' ',
            'a',
            't',
            't',
            'e',
            'n',
            'd',
            'u',
            ' ',
        ]);
    }
    m
}

/// The tile index of the CSV cell `v[lo..hi]`.
fn read_cell(v: &Vec<char>, lo: usize, hi: usize, firstgid: u32) -> (t: TileIndex)
    requires
        lo <= hi <= v@.len(),
    ensures
        t == cell_index(v@.subrange(lo as int, hi as int), firstgid),
{
    let (a, b) = trim_bounds(v, lo, hi);
    let raw: u64 = match parse_unsigned_chars(v, a, b, 0xffff_ffffu64) {
        Some(n) => n,
        None => 0,
    };
    if raw == 0 {
        EMPTY_TILE
    } else if raw >= firstgid as u64 {
        (raw - firstgid as u64) as u32
    } else {
        0
    }
}

/// The tile indices of the non-empty CSV line `v[lo..hi]`.
fn read_row(v: &Vec<char>, lo: usize, hi: usize, firstgid: u32) -> (row: Vec<TileIndex>)
    requires
        lo <= hi <= v@.len(),
    ensures
        row@ == csv_row(v@.subrange(lo as int, hi as int), firstgid),
{
    let comma = vec![','];
    assert(comma@ =~= seq![',']);
    let cells = split_ranges(v, lo, hi, &comma);
    let ghost texts = ranges_text(v@, cells@);
    let mut row: Vec<TileIndex> = Vec::new();
    let mut k: usize = 0;
    while k < cells.len()
        invariant
            0 <= k <= cells@.len(),
            texts == ranges_text(v@, cells@),
            forall|m: int| 0 <= m < cells@.len() ==> lo <= (#[trigger] cells@[m]).0 <= cells@[m].1 <= hi,
            hi <= v@.len(),
            row@ == texts.take(k as int).map_values(|c: Seq<char>| cell_index(c, firstgid)),
        decreases cells.len() - k,
    {
        let (a, b) = cells[k];
        assert(texts[k as int] == v@.subrange(a as int, b as int));
        row.push(read_cell(v, a, b, firstgid));
        assert(texts.take(k + 1) == texts.take(k as int).push(texts[k as int]));
        assert(row@ =~= texts.take(k + 1).map_values(|c: Seq<char>| cell_index(c, firstgid)));
        k = k + 1;
    }
    assert(texts.take(k as int) == texts);
    row
}

/// Reads a CSV layer of `expected_w` columns and `expected_h` rows; gids are made relative
/// to `firstgid`, and gid 0 becomes [`EMPTY_TILE`].
pub fn parse_csv_layer(csv: &str, expected_w: usize, expected_h: usize, firstgid: u32) -> (r: Result<
    Vec<Vec<TileIndex>>,
    String,
>)
    ensures
        match r {
            Ok(t) => csv_layer(csv@, expected_w as nat, expected_h as nat, firstgid) == Ok::<
                Seq<Seq<TileIndex>>,
                Seq<char>,
            >(grid_view(t@)),
            Err(m) => csv_layer(csv@, expected_w as nat, expected_h as nat, firstgid) == Err::<
                Seq<Seq<TileIndex>>,
                Seq<char>,
            >(m@),
        },
        r matches Ok(t) ==> t@.len() == expected_h && forall|i: int|
            0 <= i < t@.len() ==> (#[trigger] t@[i])@.len() == expected_w,
{
    let v = chars_of(csv);
    let nl = vec!['\n'];
    assert(nl@ =~= seq!['\n']);
    let mut lines = split_ranges(&v, 0, v.len(), &nl);
    assert(v@.subrange(0, v@.len() as int) == v@);
    proof {
        lemma_split_by_nonempty(v@, seq!['\n']);
    }
    let n = lines.len();
    if lines[n - 1].0 == lines[n - 1].1 {
        lines.pop();
    }
    let ghost ls = ranges_text(v@, lines@);
    assert(ls == lines_of(csv@));
    let mut rows: Vec<Vec<TileIndex>> = Vec::new();
    assert(grid_view(rows@) =~= Seq::<Seq<TileIndex>>::empty());
    let mut k: usize = 0;
    while k < lines.len()
        invariant
            0 <= k <= lines@.len(),
            ls == ranges_text(v@, lines@),
            ls == lines_of(csv@),
            forall|m: int| 0 <= m < lines@.len() ==> 0 <= (#[trigger] lines@[m]).0 <= lines@[m].1 <= v@.len(),
            csv_rows_upto(ls, k as int, expected_w as nat, firstgid) == Ok::<
                Seq<Seq<TileIndex>>,
                Seq<char>,
            >(grid_view(rows@)),
        decreases lines.len() - k,
    {
        let (lo, hi) = lines[k];
        assert(ls[k as int] == v@.subrange(lo as int, hi as int));
        let (a, b) = trim_bounds(&v, lo, hi);
        let b2 = strip_end_bound(&v, a, b, ',');
        if a == b2 {
            assert(csv_line(ls[k as int]).len() == 0);
        } else {
            let row = read_row(&v, a, b2, firstgid);
            if row.len() != expected_w {
                let m = width_error(k, row.len(), expected_w);
                proof {
                    assert(csv_line(ls[k as int]) == v@.subrange(a as int, b2 as int));
                    assert(csv_line(ls[k as int]).len() > 0);
                    assert(csv_rows_upto(ls, k + 1, expected_w as nat, firstgid) == Err::<Seq<Seq<TileIndex>>, Seq<char>>(
                        width_message(k as nat, row@.len(), expected_w as nat),
                    ));
                    lemma_csv_error_stays(ls, k + 1, ls.len() as int, expected_w as nat, firstgid);
                }
                return Err(m);
            }
            let ghost old_rows = grid_view(rows@);
            rows.push(row);
            assert(grid_view(rows@) =~= old_rows.push(row@));
        }
        k = k + 1;
    }
    proof {
        lemma_csv_rows_width(ls, ls.len() as int, expected_w as nat, firstgid);
    }
    if rows.len() != expected_h {
        return Err(height_error(rows.len(), expected_h));
    }
    assert forall|i: int| 0 <= i < rows@.len() implies (#[trigger] rows@[i])@.len() == expected_w by {
        assert(grid_view(rows@)[i] == rows@[i]@);
    }
    Ok(rows)
}

} // verus!

verus! {

// ------------------------------------------------------------------
// What a map holds
// ------------------------------------------------------------------

/// One tile layer of a map.
pub struct TiledLayer {
    pub name: String,
    pub tilemap: Tilemap,
}

/// What appears at a spawn point.
#[derive(Debug, Clone, Copy, PartialEq, Eq, Structural)]
pub enum SpawnKind {
    Player,
    Enemy(EnemyKind),
}

/// The colours of rubies.
#[derive(Debug, Clone, Copy, PartialEq, Eq, Structural)]
pub enum RubyKind {
    Green,
    Blue,
    Red,
}

/// What a chest holds.
#[derive(Debug, Clone, Copy, PartialEq, Eq, Structural)]
pub enum LootKind {
    Heart,
    Ruby,
    Key,
}

/// The kinds of keys that the player carries.
#[derive(Debug, Clone, Copy, PartialEq, Eq, Structural)]
pub enum KeyKind {
    Basic,
    Silver,
    Gold,
    Boss,
}

/// The kinds of objects that a map places.
#[derive(Debug, Clone, PartialEq)]
pub enum ObjectKind {
    Heart,
    Ruby(RubyKind),
    Key,
    Chest { contains: LootKind },
    Transition { target_map: String, target_entry: String },
    HeartPiece,
    Bush,
}

/// The value of an [`ObjectKind`].
pub enum ObjectKindView {
    Heart,
    Ruby(RubyKind),
    Key,
    Chest(LootKind),
    Transition(Seq<char>, Seq<char>),
    HeartPiece,
    Bush,
}

impl View for ObjectKind {
    type V = ObjectKindView;

    open spec fn view(&self) -> ObjectKindView {
        match self {
            ObjectKind::Heart => ObjectKindView::Heart,
            ObjectKind::Ruby(r) => ObjectKindView::Ruby(*r),
            ObjectKind::Key => ObjectKindView::Key,
            ObjectKind::Chest { contains } => ObjectKindView::Chest(*contains),
            ObjectKind::Transition { target_map, target_entry } => ObjectKindView::Transition(
                target_map@,
                target_entry@,
            ),
            ObjectKind::HeartPiece => ObjectKindView::HeartPiece,
            ObjectKind::Bush => ObjectKindView::Bush,
        }
    }
}

/// A spawn point as the map writes it; `x` and `y` are the object's attributes, unscaled.
pub struct SpawnEntry {
    pub x: Option<String>,
    pub y: Option<String>,
    pub kind: SpawnKind,
    pub name: String,
}

pub struct SpawnEntryView {
    pub x: Option<Seq<char>>,
    pub y: Option<Seq<char>>,
    pub kind: SpawnKind,
    pub name: Seq<char>,
}

impl View for SpawnEntry {
    type V = SpawnEntryView;

    open spec fn view(&self) -> SpawnEntryView {
        SpawnEntryView { x: opt_view(self.x), y: opt_view(self.y), kind: self.kind, name: self.name@ }
    }
}

/// An object as the map writes it; `x` and `y` are the object's attributes, unscaled.
pub struct ObjectEntry {
    pub x: Option<String>,
    pub y: Option<String>,
    pub kind: ObjectKind,
}

pub struct ObjectEntryView {
    pub x: Option<Seq<char>>,
    pub y: Option<Seq<char>>,
    pub kind: ObjectKindView,
}

impl View for ObjectEntry {
    type V = ObjectEntryView;

    open spec fn view(&self) -> ObjectEntryView {
        ObjectEntryView { x: opt_view(self.x), y: opt_view(self.y), kind: self.kind@ }
    }
}

/// A non-player character as the map writes it; positions and patrol offsets are the
/// attribute and property texts, unscaled.
pub struct NpcEntry {
    pub x: Option<String>,
    pub y: Option<String>,
    pub kind: NpcKind,
    pub solid: bool,
    pub dialogue: String,
    pub patrol_dx: Option<String>,
    pub patrol_dy: Option<String>,
}

pub struct NpcEntryView {
    pub x: Option<Seq<char>>,
    pub y: Option<Seq<char>>,
    pub kind: NpcKind,
    pub solid: bool,
    pub dialogue: Seq<char>,
    pub patrol_dx: Option<Seq<char>>,
    pub patrol_dy: Option<Seq<char>>,
}

impl View for NpcEntry {
    type V = NpcEntryView;

    open spec fn view(&self) -> NpcEntryView {
        NpcEntryView {
            x: opt_view(self.x),
            y: opt_view(self.y),
            kind: self.kind,
            solid: self.solid,
            dialogue: self.dialogue@,
            patrol_dx: opt_view(self.patrol_dx),
            patrol_dy: opt_view(self.patrol_dy),
        }
    }
}

/// A map read from a Tiled `.tmx` document.
pub struct MapFile {
    pub layers: Vec<TiledLayer>,
    pub tileset_path: String,
    pub firstgid: u32,
    pub spawn_points: Vec<SpawnEntry>,
    pub objects: Vec<ObjectEntry>,
    pub npcs: Vec<NpcEntry>,
}

// ------------------------------------------------------------------
// Reading a map, as spec functions
// ------------------------------------------------------------------

/// An attribute's value, or `default` when it is missing.
pub open spec fn attr_or(s: Seq<XmlNodeView>, j: int, name: Seq<char>, default: Seq<char>) -> Seq<
    char,
> {
    match attr(s, j, name) {
        Some(v) => v,
        None => default,
    }
}

/// A property's value (found among the node's descendants), or `default`.
pub open spec fn property_or(s: Seq<XmlNodeView>, k: int, name: Seq<char>, default: Seq<char>) -> Seq<
    char,
> {
    match property_value(s, k, name) {
        Some(v) => v,
        None => default,
    }
}

/// The class of an object: its `class` attribute (Tiled 1.9 and later), else its `type`.
pub open spec fn object_class(s: Seq<XmlNodeView>, o: int) -> Seq<char> {
    match attr(s, o, "class"@) {
        Some(c) => c,
        None => attr_or(s, o, "type"@, Seq::empty()),
    }
}

/// An optional text read as a `usize`.
pub open spec fn parse_usize_opt(t: Option<Seq<char>>) -> Option<usize> {
    match t {
        Some(v) => match parse_unsigned(v, usize::MAX as nat) {
            Some(n) => Some(n as usize),
            None => None,
        },
        None => None,
    }
}

/// The kind of spawn that a class names, if any.
pub open spec fn spawn_kind_of(class: Seq<char>) -> Option<SpawnKind> {
    if class == "player"@ {
        Some(SpawnKind::Player)
    } else if class == "slime"@ {
        Some(SpawnKind::Enemy(EnemyKind::Slime))
    } else if class == "goblin"@ {
        Some(SpawnKind::Enemy(EnemyKind::Goblin))
    } else if class == "knight"@ {
        Some(SpawnKind::Enemy(EnemyKind::Knight))
    } else {
        None
    }
}

/// The spawn points of the objects `objs`, in order; objects of an unknown class are skipped.
pub open spec fn spawns_of(s: Seq<XmlNodeView>, objs: Seq<int>) -> Seq<SpawnEntryView>
    decreases objs.len(),
{
    if objs.len() == 0 {
        Seq::empty()
    } else {
        let before = spawns_of(s, objs.drop_last());
        let o = objs.last();
        match spawn_kind_of(object_class(s, o)) {
            Some(kind) => before.push(
                SpawnEntryView {
                    x: attr(s, o, "x"@),
                    y: attr(s, o, "y"@),
                    kind,
                    name: attr_or_empty(s, o, "name"@),
                },
            ),
            None => before,
        }
    }
}

/// The `<object>` children of the groups `groups` that are named `name`, group by group.
pub open spec fn group_objects(s: Seq<XmlNodeView>, groups: Seq<int>, name: Seq<char>) -> Seq<int>
    decreases groups.len(),
{
    if groups.len() == 0 {
        Seq::empty()
    } else {
        let before = group_objects(s, groups.drop_last(), name);
        let g = groups.last();
        if attr_or_empty(s, g, "name"@) == name {
            before + tagged_children(s, g, "object"@)
        } else {
            before
        }
    }
}

/// The object groups of the map.
pub open spec fn object_groups(s: Seq<XmlNodeView>) -> Seq<int> {
    tagged_children(s, root_element(s), "objectgroup"@)
}

/// The spawn points of a map: the objects of its groups named `spawns`.
pub open spec fn tmx_spawns(s: Seq<XmlNodeView>) -> Seq<SpawnEntryView> {
    spawns_of(s, group_objects(s, object_groups(s), "spawns"@))
}

/// `get_float_property`'s lookup: the value of the first `<property>` named `name` among the
/// children of the node's first `<properties>` child.
pub open spec fn direct_property(s: Seq<XmlNodeView>, k: int, name: Seq<char>) -> Option<Seq<char>> {
    let groups = tagged_children(s, k, "properties"@);
    if groups.len() == 0 {
        None
    } else {
        match first_named(s, tagged_children(s, groups[0], "property"@), name) {
            Some(j) => attr(s, j, "value"@),
            None => None,
        }
    }
}

/// The character that an object of class `npc` describes.
pub open spec fn npc_of(s: Seq<XmlNodeView>, o: int) -> NpcEntryView {
    let kind_prop = property_or(s, o, "npc_kind"@, "villager"@);
    let solid_prop = property_or(s, o, "solid"@, "true"@);
    let dialogue = if kind_prop == "animal"@ {
        property_or(s, o, "dialogue_animal"@, "Meuh."@)
    } else {
        property_or(s, o, "dialogue"@, "Bonjour !"@)
    };
    let kind = if kind_prop == "animal"@ {
        NpcKind::Animal
    } else if kind_prop == "guy"@ {
        NpcKind::Guy
    } else if kind_prop == "girl"@ {
        NpcKind::Girl
    } else {
        NpcKind::Villager
    };
    NpcEntryView {
        x: attr(s, o, "x"@),
        y: attr(s, o, "y"@),
        kind,
        solid: solid_prop != "false"@,
        dialogue,
        patrol_dx: direct_property(s, o, "patrol_dx"@),
        patrol_dy: direct_property(s, o, "patrol_dy"@),
    }
}

/// The `target_map` and `target_entry` properties of a transition, the last of each winning.
pub open spec fn transition_targets(s: Seq<XmlNodeView>, props: Seq<int>) -> (Seq<char>, Seq<char>)
    decreases props.len(),
{
    if props.len() == 0 {
        (Seq::empty(), Seq::empty())
    } else {
        let before = transition_targets(s, props.drop_last());
        let p = props.last();
        let n = attr_or_empty(s, p, "name"@);
        if n == "target_map"@ {
            (attr_or_empty(s, p, "value"@), before.1)
        } else if n == "target_entry"@ {
            (before.0, attr_or_empty(s, p, "value"@))
        } else {
            before
        }
    }
}

/// What a chest holds, from its `contains` property.
pub open spec fn loot_of(c: Seq<char>) -> LootKind {
    if c == "heart"@ {
        LootKind::Heart
    } else if c == "key"@ {
        LootKind::Key
    } else {
        LootKind::Ruby
    }
}

/// The object that an object of class `class` describes, if the class is known (a transition
/// without a target map is skipped).
pub open spec fn object_kind_of(s: Seq<XmlNodeView>, o: int, class: Seq<char>) -> Option<
    ObjectKindView,
> {
    if class == "heart"@ {
        Some(ObjectKindView::Heart)
    } else if class == "ruby"@ {
        Some(ObjectKindView::Ruby(RubyKind::Green))
    } else if class == "key"@ {
        Some(ObjectKindView::Key)
    } else if class == "bush"@ {
        Some(ObjectKindView::Bush)
    } else if class == "chest"@ {
        Some(ObjectKindView::Chest(loot_of(property_or(s, o, "contains"@, "ruby"@))))
    } else if class == "transition"@ {
        let t = transition_targets(s, subtree_properties(s, o));
        if t.0.len() == 0 {
            None
        } else {
            Some(ObjectKindView::Transition(t.0, t.1))
        }
    } else if class == "heart_piece"@ {
        Some(ObjectKindView::HeartPiece)
    } else {
        None
    }
}

/// The objects and the characters that the objects `objs` describe, in order.
pub open spec fn things_of(s: Seq<XmlNodeView>, objs: Seq<int>) -> (Seq<ObjectEntryView>, Seq<NpcEntryView>)
    decreases objs.len(),
{
    if objs.len() == 0 {
        (Seq::empty(), Seq::empty())
    } else {
        let before = things_of(s, objs.drop_last());
        let o = objs.last();
        let class = object_class(s, o);
        if class == "npc"@ {
            (before.0, before.1.push(npc_of(s, o)))
        } else {
            match object_kind_of(s, o, class) {
                Some(kind) => (before.0.push(ObjectEntryView { x: attr(s, o, "x"@), y: attr(s, o, "y"@), kind }), before.1),
                None => before,
            }
        }
    }
}

/// The objects and characters of a map: those of its groups named `objects`.
pub open spec fn tmx_things(s: Seq<XmlNodeView>) -> (Seq<ObjectEntryView>, Seq<NpcEntryView>) {
    things_of(s, group_objects(s, object_groups(s), "objects"@))
}

/// `Couche '{name}' : encodage '{encoding}' non supporté. Choisissez CSV dans Tiled.`
pub open spec fn encoding_message(name: Seq<char>, encoding: Seq<char>) -> Seq<char> {
    "Couche '"@ + name + "' : encodage '"@ + encoding + "' non supporté. Choisissez CSV dans Tiled."@
}

/// The name and tiles that the `<layer>` elements `ls` give, or the first error.
pub open spec fn layers_of(s: Seq<XmlNodeView>, ls: Seq<int>, w: nat, h: nat, firstgid: u32) -> Result<
    Seq<(Seq<char>, Seq<Seq<TileIndex>>)>,
    Seq<char>,
>
    decreases ls.len(),
{
    if ls.len() == 0 {
        Ok(Seq::empty())
    } else {
        match layers_of(s, ls.drop_last(), w, h, firstgid) {
            Err(e) => Err(e),
            Ok(before) => {
                let l = ls.last();
                let name = attr_or(s, l, "name"@, "Sans nom"@);
                let datas = tagged_children(s, l, "data"@);
                if datas.len() == 0 {
                    Ok(before)
                } else {
                    let d = datas[0];
                    let encoding = attr_or_empty(s, d, "encoding"@);
                    if encoding != "csv"@ {
                        Err(encoding_message(name, encoding))
                    } else {
                        let text = trim(
                            match s[d].text {
                                Some(t) => t,
                                None => Seq::empty(),
                            },
                        );
                        match csv_layer(text, w, h, firstgid) {
                            Err(e) => Err(e),
                            Ok(grid) => Ok(before.push((name, grid))),
                        }
                    }
                }
            },
        }
    }
}

/// Everything of a map but its tileset path, as read from a document that parsed.
pub struct TmxView {
    /// The `source` attribute of the map's first `<tileset>`: the tileset file, from the map's
    /// directory.
    pub tileset_source: Seq<char>,
    pub firstgid: u32,
    pub layers: Seq<(Seq<char>, Seq<Seq<TileIndex>>)>,
    pub spawns: Seq<SpawnEntryView>,
    pub objects: Seq<ObjectEntryView>,
    pub npcs: Seq<NpcEntryView>,
}

/// What reading the map document `s` at `path` gives: the map, or the message of the error.
pub open spec fn tmx_map(path: Seq<char>, s: Seq<XmlNodeView>) -> Result<TmxView, Seq<char>> {
    let root = root_element(s);
    match parse_usize_opt(attr(s, root, "width"@)) {
        None => Err("Attribut 'width' manquant"@),
        Some(w) => match parse_usize_opt(attr(s, root, "height"@)) {
            None => Err("Attribut 'height' manquant"@),
            Some(h) => {
                let tilesets = tagged_children(s, root, "tileset"@);
                if tilesets.len() == 0 {
                    Err("Aucun <tileset> trouvé"@)
                } else {
                    let ts = tilesets[0];
                    let firstgid = match parse_u32_opt(attr(s, ts, "firstgid"@)) {
                        Some(g) => g,
                        None => 1,
                    };
                    if attr(s, ts, "source"@) is None {
                        Err("Attribut 'source' manquant dans <tileset>"@)
                    } else {
                        match layers_of(s, tagged_children(s, root, "layer"@), w as nat, h as nat, firstgid) {
                            Err(e) => Err(e),
                            Ok(layers) => if layers.len() == 0 {
                                Err("Aucune couche trouvée dans '"@ + path + "'"@)
                            } else {
                                Ok(
                                    TmxView {
                                        tileset_source: attr(s, ts, "source"@).unwrap(),
                                        firstgid,
                                        layers,
                                        spawns: tmx_spawns(s),
                                        objects: tmx_things(s).0,
                                        npcs: tmx_things(s).1,
                                    },
                                )
                            },
                        }
                    }
                }
            },
        },
    }
}

/// What reading the text `content` of the map file at `path` gives.
pub open spec fn tmx_result(path: Seq<char>, content: Seq<char>) -> Result<TmxView, Seq<char>> {
    match xml_document(content) {
        Err(e) => Err(xml_error_message(path, e)),
        Ok(s) => tmx_map(path, s),
    }
}

/// Every layer knows its size: `rows` is the number of rows of its grid, `cols` the width of
/// its first row (0 without rows).
pub open spec fn layers_sized(ls: Seq<TiledLayer>) -> bool {
    forall|i: int|
        0 <= i < ls.len() ==> (#[trigger] ls[i]).tilemap.rows == ls[i].tilemap.tiles@.len()
            && ls[i].tilemap.cols == (if ls[i].tilemap.tiles@.len() > 0 {
            ls[i].tilemap.tiles@[0]@.len()
        } else {
            0
        })
}

impl MapFile {
    /// The map, as a value, for a tileset named `tileset_source` in the map (the path it
    /// resolves to is not part of the value).
    pub open spec fn spec_view(&self, tileset_source: Seq<char>) -> TmxView {
        TmxView {
            tileset_source,
            firstgid: self.firstgid,
            layers: self.layers@.map_values(|l: TiledLayer| (l.name@, grid_view(l.tilemap.tiles@))),
            spawns: self.spawn_points@.map_values(|e: SpawnEntry| e@),
            objects: self.objects@.map_values(|e: ObjectEntry| e@),
            npcs: self.npcs@.map_values(|e: NpcEntry| e@),
        }
    }
}

} // verus!

verus! {

// ------------------------------------------------------------------
// Reading a map
// ------------------------------------------------------------------

fn attr_or_exec(doc: &XmlDoc, j: usize, name: &str, default: &str) -> (r: String)
    requires
        j < doc.nodes@.len(),
    ensures
        r@ == attr_or(doc.spec_nodes(), j as int, name@, default@),
{
    match doc.attribute(j, name) {
        Some(v) => v,
        None => String::from_str(default),
    }
}

fn property_or_exec(doc: &XmlDoc, k: usize, name: &str, default: &str) -> (r: String)
    requires
        k < doc.nodes@.len(),
    ensures
        r@ == property_or(doc.spec_nodes(), k as int, name@, default@),
{
    match doc.property_value(k, name) {
        Some(v) => v,
        None => String::from_str(default),
    }
}

fn object_class_exec(doc: &XmlDoc, o: usize) -> (r: String)
    requires
        o < doc.nodes@.len(),
    ensures
        r@ == object_class(doc.spec_nodes(), o as int),
{
    proof {
        reveal_strlit("");
        assert(""@ =~= Seq::<char>::empty());
    }
    match doc.attribute(o, "class") {
        Some(c) => c,
        None => attr_or_exec(doc, o, "type", ""),
    }
}

fn parse_usize_opt_exec(t: &Option<String>) -> (r: Option<usize>)
    ensures
        r == parse_usize_opt(opt_view(*t)),
{
    match t {
        Some(v) => {
            let cs = chars_of(v.as_str());
            assert(cs@.subrange(0, cs@.len() as int) == v@);
            match parse_unsigned_chars(&cs, 0, cs.len(), usize::MAX as u64) {
                Some(n) => Some(n as usize),
                None => None,
            }
        },
        None => None,
    }
}

fn spawn_kind_exec(class: &String) -> (r: Option<SpawnKind>)
    ensures
        r == spawn_kind_of(class@),
{
    if text_eq(class.as_str(), "player") {
        Some(SpawnKind::Player)
    } else if text_eq(class.as_str(), "slime") {
        Some(SpawnKind::Enemy(EnemyKind::Slime))
    } else if text_eq(class.as_str(), "goblin") {
        Some(SpawnKind::Enemy(EnemyKind::Goblin))
    } else if text_eq(class.as_str(), "knight") {
        Some(SpawnKind::Enemy(EnemyKind::Knight))
    } else {
        None
    }
}

fn direct_property_exec(doc: &XmlDoc, k: usize, name: &str) -> (r: Option<String>)
    requires
        doc.wf(),
        k < doc.nodes@.len(),
    ensures
        opt_view(r) == direct_property(doc.spec_nodes(), k as int, name@),
{
    let ghost s = doc.spec_nodes();
    let groups = doc.children_named(k, "properties");
    if groups.len() == 0 {
        return None;
    }
    let g = groups[0];
    assert(g as int == tagged_children(s, k as int, "properties"@)[0]);
    let props = doc.children_named(g, "property");
    let ghost ps = props@.map_values(|j: usize| j as int);
    proof {
        lemma_tagged_children_in_range(s, g as int, "property"@);
        assert(ps.subrange(0, ps.len() as int) == ps);
    }
    let mut i: usize = 0;
    while i < props.len()
        invariant
            s == doc.spec_nodes(),
            ps == props@.map_values(|j: usize| j as int),
            forall|m: int| 0 <= m < ps.len() ==> 0 <= #[trigger] ps[m] < s.len(),
            0 <= i <= ps.len(),
            tagged_children(s, k as int, "properties"@).len() > 0,
            tagged_children(s, k as int, "properties"@)[0] == g as int,
            ps == tagged_children(s, g as int, "property"@),
            first_named(s, ps, name@) == first_named(s, ps.subrange(i as int, ps.len() as int), name@),
        decreases props.len() - i,
    {
        let j = props[i];
        let ghost rest = ps.subrange(i as int, ps.len() as int);
        assert(rest.len() > 0);
        assert(ps[i as int] == j as int);
        assert(rest[0] == j as int);
        let nm = doc.attribute(j, "name");
        proof {
            reveal_strlit("name");
            assert("name"@ =~= seq!['n', 'a', 'm', 'e']);
        }
        let hit = match &nm {
            Some(v) => text_eq(v.as_str(), name),
            None => false,
        };
        if hit {
            assert(first_named(s, rest, name@) == Some(j as int));
            return doc.attribute(j, "value");
        }
        assert(first_named(s, rest, name@) == first_named(s, rest.drop_first(), name@));
        assert(rest.drop_first() == ps.subrange(i + 1, ps.len() as int));
        i = i + 1;
    }
    None
}

fn npc_exec(doc: &XmlDoc, o: usize) -> (r: NpcEntry)
    requires
        doc.wf(),
        o < doc.nodes@.len(),
    ensures
        r@ == npc_of(doc.spec_nodes(), o as int),
{
    let kind_prop = property_or_exec(doc, o, "npc_kind", "villager");
    let solid_prop = property_or_exec(doc, o, "solid", "true");
    let is_animal = text_eq(kind_prop.as_str(), "animal");
    let dialogue = if is_animal {
        property_or_exec(doc, o, "dialogue_animal", "Meuh.")
    } else {
        property_or_exec(doc, o, "dialogue", "Bonjour !")
    };
    let kind = if is_animal {
        NpcKind::Animal
    } else if text_eq(kind_prop.as_str(), "guy") {
        NpcKind::Guy
    } else if text_eq(kind_prop.as_str(), "girl") {
        NpcKind::Girl
    } else {
        NpcKind::Villager
    };
    let solid = !text_eq(solid_prop.as_str(), "false");
    NpcEntry {
        x: doc.attribute(o, "x"),
        y: doc.attribute(o, "y"),
        kind,
        solid,
        dialogue,
        patrol_dx: direct_property_exec(doc, o, "patrol_dx"),
        patrol_dy: direct_property_exec(doc, o, "patrol_dy"),
    }
}

fn transition_targets_exec(doc: &XmlDoc, o: usize) -> (r: (String, String))
    requires
        doc.wf(),
        o < doc.nodes@.len(),
    ensures
        (r.0@, r.1@) == transition_targets(doc.spec_nodes(), subtree_properties(doc.spec_nodes(), o as int)),
{
    let ghost s = doc.spec_nodes();
    let props = doc.subtree_properties(o);
    let ghost ps = props@.map_values(|j: usize| j as int);
    let mut target_map = String::new();
    let mut target_entry = String::new();
    assert(ps.take(0) == Seq::<int>::empty());
    let mut i: usize = 0;
    while i < props.len()
        invariant
            s == doc.spec_nodes(),
            ps == props@.map_values(|j: usize| j as int),
            forall|m: int| 0 <= m < props@.len() ==> #[trigger] props@[m] < s.len(),
            0 <= i <= ps.len(),
            (target_map@, target_entry@) == transition_targets(s, ps.take(i as int)),
        decreases props.len() - i,
    {
        let p = props[i];
        assert(ps[i as int] == p as int);
        assert(ps.take(i + 1).drop_last() == ps.take(i as int));
        assert(ps.take(i + 1).last() == p as int);
        proof {
            reveal_strlit("");
            assert(""@ =~= Seq::<char>::empty());
        }
        let n = attr_or_exec(doc, p, "name", "");
        if text_eq(n.as_str(), "target_map") {
            target_map = attr_or_exec(doc, p, "value", "");
        } else if text_eq(n.as_str(), "target_entry") {
            target_entry = attr_or_exec(doc, p, "value", "");
        }
        i = i + 1;
    }
    assert(ps.take(ps.len() as int) == ps);
    (target_map, target_entry)
}

fn object_kind_exec(doc: &XmlDoc, o: usize, class: &String) -> (r: Option<ObjectKind>)
    requires
        doc.wf(),
        o < doc.nodes@.len(),
    ensures
        match r {
            Some(k) => object_kind_of(doc.spec_nodes(), o as int, class@) == Some(k@),
            None => object_kind_of(doc.spec_nodes(), o as int, class@) is None,
        },
{
    let c = class.as_str();
    if text_eq(c, "heart") {
        Some(ObjectKind::Heart)
    } else if text_eq(c, "ruby") {
        Some(ObjectKind::Ruby(RubyKind::Green))
    } else if text_eq(c, "key") {
        Some(ObjectKind::Key)
    } else if text_eq(c, "bush") {
        Some(ObjectKind::Bush)
    } else if text_eq(c, "chest") {
        let contains = property_or_exec(doc, o, "contains", "ruby");
        let loot = if text_eq(contains.as_str(), "heart") {
            LootKind::Heart
        } else if text_eq(contains.as_str(), "key") {
            LootKind::Key
        } else {
            LootKind::Ruby
        };
        Some(ObjectKind::Chest { contains: loot })
    } else if text_eq(c, "transition") {
        let (target_map, target_entry) = transition_targets_exec(doc, o);
        if target_map.as_str().is_empty() {
            None
        } else {
            Some(ObjectKind::Transition { target_map, target_entry })
        }
    } else if text_eq(c, "heart_piece") {
        Some(ObjectKind::HeartPiece)
    } else {
        None
    }
}

/// The `<object>` children of the groups `groups` named `name`, group by group.
fn group_objects_exec(doc: &XmlDoc, groups: &Vec<usize>, name: &str) -> (r: Vec<usize>)
    requires
        forall|m: int| 0 <= m < groups@.len() ==> #[trigger] groups@[m] < doc.nodes@.len(),
    ensures
        r@.map_values(|j: usize| j as int) == group_objects(
            doc.spec_nodes(),
            groups@.map_values(|j: usize| j as int),
            name@,
        ),
        forall|m: int| 0 <= m < r@.len() ==> #[trigger] r@[m] < doc.nodes@.len(),
{
    let ghost s = doc.spec_nodes();
    let ghost gs = groups@.map_values(|j: usize| j as int);
    let mut r: Vec<usize> = Vec::new();
    assert(gs.take(0) == Seq::<int>::empty());
    assert(r@.map_values(|j: usize| j as int) == Seq::<int>::empty());
    let mut i: usize = 0;
    while i < groups.len()
        invariant
            s == doc.spec_nodes(),
            gs == groups@.map_values(|j: usize| j as int),
            forall|m: int| 0 <= m < groups@.len() ==> #[trigger] groups@[m] < s.len(),
            0 <= i <= gs.len(),
            r@.map_values(|j: usize| j as int) == group_objects(s, gs.take(i as int), name@),
            forall|m: int| 0 <= m < r@.len() ==> #[trigger] r@[m] < s.len(),
        decreases groups.len() - i,
    {
        let g = groups[i];
        assert(gs[i as int] == g as int);
        assert(gs.take(i + 1).drop_last() == gs.take(i as int));
        assert(gs.take(i + 1).last() == g as int);
        let gname = attr_or_exec(doc, g, "name", "");
        proof {
            reveal_strlit("");
            assert(""@ =~= Seq::<char>::empty());
        }
        if text_eq(gname.as_str(), name) {
            let objs = doc.children_named(g, "object");
            proof {
                lemma_tagged_children_in_range(s, g as int, "object"@);
            }
            let ghost before = r@.map_values(|j: usize| j as int);
            let ghost os = objs@.map_values(|j: usize| j as int);
            let mut k: usize = 0;
            while k < objs.len()
                invariant
                    s == doc.spec_nodes(),
                    os == objs@.map_values(|j: usize| j as int),
                    os == tagged_children(s, g as int, "object"@),
                    forall|m: int| 0 <= m < os.len() ==> 0 <= #[trigger] os[m] < s.len(),
                    0 <= k <= os.len(),
                    r@.map_values(|j: usize| j as int) == before + os.take(k as int),
                    forall|m: int| 0 <= m < r@.len() ==> #[trigger] r@[m] < s.len(),
                decreases objs.len() - k,
            {
                let ghost prev = r@.map_values(|j: usize| j as int);
                assert(os[k as int] == objs@[k as int] as int);
                r.push(objs[k]);
                assert(r@.map_values(|j: usize| j as int) =~= prev.push(objs@[k as int] as int));
                assert(os.take(k + 1) =~= os.take(k as int).push(os[k as int]));
                assert(before + os.take(k + 1) =~= (before + os.take(k as int)).push(os[k as int]));
                k = k + 1;
            }
            assert(os.take(os.len() as int) == os);
        }
        i = i + 1;
    }
    assert(gs.take(gs.len() as int) == gs);
    r
}

fn read_spawns(doc: &XmlDoc, groups: &Vec<usize>) -> (r: Vec<SpawnEntry>)
    requires
        doc.wf(),
        forall|m: int| 0 <= m < groups@.len() ==> #[trigger] groups@[m] < doc.nodes@.len(),
    ensures
        r@.map_values(|e: SpawnEntry| e@) == spawns_of(
            doc.spec_nodes(),
            group_objects(doc.spec_nodes(), groups@.map_values(|j: usize| j as int), "spawns"@),
        ),
{
    let ghost s = doc.spec_nodes();
    let objs = group_objects_exec(doc, groups, "spawns");
    let ghost os = objs@.map_values(|j: usize| j as int);
    let mut r: Vec<SpawnEntry> = Vec::new();
    assert(os.take(0) == Seq::<int>::empty());
    assert(r@.map_values(|e: SpawnEntry| e@) =~= Seq::<SpawnEntryView>::empty());
    let mut i: usize = 0;
    while i < objs.len()
        invariant
            s == doc.spec_nodes(),
            doc.wf(),
            os == objs@.map_values(|j: usize| j as int),
            forall|m: int| 0 <= m < objs@.len() ==> #[trigger] objs@[m] < s.len(),
            0 <= i <= os.len(),
            r@.map_values(|e: SpawnEntry| e@) == spawns_of(s, os.take(i as int)),
        decreases objs.len() - i,
    {
        let o = objs[i];
        assert(os[i as int] == o as int);
        assert(os.take(i + 1).drop_last() == os.take(i as int));
        assert(os.take(i + 1).last() == o as int);
        let class = object_class_exec(doc, o);
        match spawn_kind_exec(&class) {
            Some(kind) => {
                let e = SpawnEntry {
                    x: doc.attribute(o, "x"),
                    y: doc.attribute(o, "y"),
                    kind,
                    name: attr_or_exec(doc, o, "name", ""),
                };
                proof {
                    reveal_strlit("");
                    assert(""@ =~= Seq::<char>::empty());
                }
                let ghost prev = r@.map_values(|e: SpawnEntry| e@);
                r.push(e);
                assert(r@.map_values(|e: SpawnEntry| e@) =~= prev.push(e@));
            },
            None => {},
        }
        i = i + 1;
    }
    assert(os.take(os.len() as int) == os);
    r
}

fn read_things(doc: &XmlDoc, groups: &Vec<usize>) -> (r: (Vec<ObjectEntry>, Vec<NpcEntry>))
    requires
        doc.wf(),
        forall|m: int| 0 <= m < groups@.len() ==> #[trigger] groups@[m] < doc.nodes@.len(),
    ensures
        (r.0@.map_values(|e: ObjectEntry| e@), r.1@.map_values(|e: NpcEntry| e@)) == things_of(
            doc.spec_nodes(),
            group_objects(doc.spec_nodes(), groups@.map_values(|j: usize| j as int), "objects"@),
        ),
{
    let ghost s = doc.spec_nodes();
    let objs = group_objects_exec(doc, groups, "objects");
    let ghost os = objs@.map_values(|j: usize| j as int);
    let mut objects: Vec<ObjectEntry> = Vec::new();
    let mut npcs: Vec<NpcEntry> = Vec::new();
    assert(os.take(0) == Seq::<int>::empty());
    assert(objects@.map_values(|e: ObjectEntry| e@) =~= Seq::<ObjectEntryView>::empty());
    assert(npcs@.map_values(|e: NpcEntry| e@) =~= Seq::<NpcEntryView>::empty());
    let mut i: usize = 0;
    while i < objs.len()
        invariant
            s == doc.spec_nodes(),
            doc.wf(),
            os == objs@.map_values(|j: usize| j as int),
            forall|m: int| 0 <= m < objs@.len() ==> #[trigger] objs@[m] < s.len(),
            0 <= i <= os.len(),
            (objects@.map_values(|e: ObjectEntry| e@), npcs@.map_values(|e: NpcEntry| e@))
                == things_of(s, os.take(i as int)),
        decreases objs.len() - i,
    {
        let o = objs[i];
        assert(os[i as int] == o as int);
        assert(os.take(i + 1).drop_last() == os.take(i as int));
        assert(os.take(i + 1).last() == o as int);
        let class = object_class_exec(doc, o);
        if text_eq(class.as_str(), "npc") {
            let n = npc_exec(doc, o);
            let ghost prev = npcs@.map_values(|e: NpcEntry| e@);
            npcs.push(n);
            assert(npcs@.map_values(|e: NpcEntry| e@) =~= prev.push(n@));
        } else {
            match object_kind_exec(doc, o, &class) {
                Some(kind) => {
                    let e = ObjectEntry { x: doc.attribute(o, "x"), y: doc.attribute(o, "y"), kind };
                    let ghost prev = objects@.map_values(|e: ObjectEntry| e@);
                    objects.push(e);
                    assert(objects@.map_values(|e: ObjectEntry| e@) =~= prev.push(e@));
                },
                None => {},
            }
        }
        i = i + 1;
    }
    assert(os.take(os.len() as int) == os);
    (objects, npcs)
}

fn encoding_error(name: &String, encoding: &String) -> (m: String)
    ensures
        m@ == encoding_message(name@, encoding@),
{
    let mut m = String::from_str("Couche '");
    push_str(&mut m, name.as_str());
    push_str(&mut m, "' : encodage '");
    push_str(&mut m, encoding.as_str());
    push_str(&mut m, "' non supporté. Choisissez CSV dans Tiled.");
    m
}

/// Once a layer is refused, the later layers change nothing.
proof fn lemma_layers_error_stays(
    s: Seq<XmlNodeView>,
    ls: Seq<int>,
    m: int,
    w: nat,
    h: nat,
    firstgid: u32,
)
    requires
        0 <= m <= ls.len(),
        layers_of(s, ls.take(m), w, h, firstgid) is Err,
    ensures
        layers_of(s, ls, w, h, firstgid) == layers_of(s, ls.take(m), w, h, firstgid),
    decreases ls.len() - m,
{
    if m < ls.len() {
        assert(ls.take(m + 1).drop_last() == ls.take(m));
        lemma_layers_error_stays(s, ls, m + 1, w, h, firstgid);
    } else {
        assert(ls.take(m) == ls);
    }
}

fn read_layers(doc: &XmlDoc, root: usize, w: usize, h: usize, firstgid: u32) -> (r: Result<
    Vec<TiledLayer>,
    String,
>)
    requires
        doc.wf(),
    ensures
        match r {
            Ok(v) => layers_of(doc.spec_nodes(), tagged_children(doc.spec_nodes(), root as int, "layer"@), w as nat, h as nat, firstgid)
                == Ok::<Seq<(Seq<char>, Seq<Seq<TileIndex>>)>, Seq<char>>(
                v@.map_values(|l: TiledLayer| (l.name@, grid_view(l.tilemap.tiles@))),
            ) && layers_sized(v@),
            Err(m) => layers_of(doc.spec_nodes(), tagged_children(doc.spec_nodes(), root as int, "layer"@), w as nat, h as nat, firstgid)
                == Err::<Seq<(Seq<char>, Seq<Seq<TileIndex>>)>, Seq<char>>(m@),
        },
{
    let ghost s = doc.spec_nodes();
    let ls = doc.children_named(root, "layer");
    let ghost lsv = ls@.map_values(|j: usize| j as int);
    proof {
        lemma_tagged_children_in_range(s, root as int, "layer"@);
    }
    let mut layers: Vec<TiledLayer> = Vec::new();
    assert(lsv.take(0) == Seq::<int>::empty());
    assert(layers@.map_values(|l: TiledLayer| (l.name@, grid_view(l.tilemap.tiles@))) =~= Seq::<
        (Seq<char>, Seq<Seq<TileIndex>>),
    >::empty());
    let mut i: usize = 0;
    while i < ls.len()
        invariant
            s == doc.spec_nodes(),
            doc.wf(),
            lsv == ls@.map_values(|j: usize| j as int),
            lsv == tagged_children(s, root as int, "layer"@),
            forall|m: int| 0 <= m < lsv.len() ==> 0 <= #[trigger] lsv[m] < s.len(),
            0 <= i <= lsv.len(),
            layers_of(s, lsv.take(i as int), w as nat, h as nat, firstgid) == Ok::<
                Seq<(Seq<char>, Seq<Seq<TileIndex>>)>,
                Seq<char>,
            >(layers@.map_values(|l: TiledLayer| (l.name@, grid_view(l.tilemap.tiles@)))),
            layers_sized(layers@),
        decreases ls.len() - i,
    {
        let l = ls[i];
        assert(lsv[i as int] == l as int);
        assert(lsv.take(i + 1).drop_last() == lsv.take(i as int));
        assert(lsv.take(i + 1).last() == l as int);
        let name = attr_or_exec(doc, l, "name", "Sans nom");
        match doc.first_child_named(l, "data") {
            None => {},
            Some(d) => {
                proof {
                    lemma_tagged_children_in_range(s, l as int, "data"@);
                }
                let encoding = attr_or_exec(doc, d, "encoding", "");
                proof {
                    reveal_strlit("");
                    assert(""@ =~= Seq::<char>::empty());
                }
                if !text_eq(encoding.as_str(), "csv") {
                    let m = encoding_error(&name, &encoding);
                    proof {
                        lemma_layers_error_stays(s, lsv, i + 1, w as nat, h as nat, firstgid);
                        assert(lsv.take(lsv.len() as int) == lsv);
                    }
                    return Err(m);
                }
                let text = match &doc.nodes[d].text {
                    Some(t) => t.clone(),
                    None => String::new(),
                };
                assert(text@ == (match s[d as int].text {
                    Some(t) => t,
                    None => Seq::<char>::empty(),
                }));
                let tv = chars_of(text.as_str());
                let (a, b) = trim_bounds(&tv, 0, tv.len());
                assert(tv@.subrange(0, tv@.len() as int) == tv@);
                let trimmed = crate::text::string_from_chars(&tv, a, b);
                match parse_csv_layer(trimmed.as_str(), w, h, firstgid) {
                    Err(e) => {
                        proof {
                            lemma_layers_error_stays(s, lsv, i + 1, w as nat, h as nat, firstgid);
                            assert(lsv.take(lsv.len() as int) == lsv);
                        }
                        return Err(e);
                    },
                    Ok(tiles) => {
                        let ghost prev = layers@.map_values(|l: TiledLayer| (l.name@, grid_view(l.tilemap.tiles@)));
                        let layer = TiledLayer { name, tilemap: Tilemap::new(tiles) };
                        layers.push(layer);
                        assert(layers@.map_values(|l: TiledLayer| (l.name@, grid_view(l.tilemap.tiles@))) =~= prev.push(
                            (layer.name@, grid_view(layer.tilemap.tiles@)),
                        ));
                    },
                }
            },
        }
        i = i + 1;
    }
    assert(lsv.take(lsv.len() as int) == lsv);
    Ok(layers)
}

/// A path text that every platform reads as relative and without a drive or root: it does
/// not start with `/` or `\\` and holds no `:`.
pub open spec fn plain_relative(rel: Seq<char>) -> bool {
    rel.len() == 0 || (rel[0] != '/' && rel[0] != '\\' && !rel.contains(':'))
}

/// `r` is `dir` followed (with at most one separator between) by `rel`; when `dir` is not
/// empty, holds no `:` (so no drive, such as a bare `C:`) and does not end with `/`, exactly
/// one separator (`/` or `\\`) stands between.
pub open spec fn joined(dir: Seq<char>, rel: Seq<char>, r: Seq<char>) -> bool {
    &&& dir.is_prefix_of(r)
    &&& rel.is_suffix_of(r)
    &&& dir.len() + rel.len() <= r.len() <= dir.len() + rel.len() + 1
    &&& dir.len() > 0 && !dir.contains(':') && dir.last() != '/' ==> r.len() == dir.len() + rel.len() + 1 && (r[dir.len() as int]
        == '/' || r[dir.len() as int] == '\\')
}

/// A relative path whose components are separated by single `/` and are neither empty nor `.`:
/// not empty, no `\\` or `:` (so no drive or Windows prefix), no `/` at either end, no `//`,
/// and no `.` component. Every platform splits such a path at its `/` alone.
pub open spec fn simple_path(p: Seq<char>) -> bool {
    &&& p.len() > 0
    &&& !p.contains('\\')
    &&& !p.contains(':')
    &&& p[0] != '/'
    &&& p.last() != '/'
    &&& forall|i: int| 0 <= i < p.len() - 1 ==> !(#[trigger] p[i] == '/' && p[i + 1] == '/')
    &&& p != seq!['.']
    &&& !(p.len() >= 2 && p[0] == '.' && p[1] == '/')
    &&& !(p.len() >= 2 && p[p.len() - 2] == '/' && p.last() == '.')
    &&& forall|i: int| 0 <= i < p.len() - 2 ==> !(#[trigger] p[i] == '/' && p[i + 1] == '.' && p[i + 2] == '/')
}

/// The text of `p` before its last `/`, or `""` when it has none.
pub open spec fn dir_part(p: Seq<char>) -> Seq<char>
    decreases p.len(),
{
    if p.len() == 0 {
        Seq::empty()
    } else if p.last() == '/' {
        p.drop_last()
    } else {
        dir_part(p.drop_last())
    }
}

/// `std::path::Path::parent`, as text. The documentation says that it gives the path without
/// its final component (`Some("")` for a relative path of one component), and nothing for the
/// empty path: what it gives is a strictly shorter start of the path, and for a simple path
/// (see [`simple_path`]), whose final component is the text after its last `/`, it is the text
/// before that `/`. For other paths, which text is left once empty and `.` components are
/// normalised away is not stated.
#[verifier::external_body]
fn path_parent(p: &str) -> (r: Option<String>)
    ensures
        p@.len() == 0 ==> r is None,
        r matches Some(d) ==> d@.len() < p@.len() && d@.is_prefix_of(p@),
        simple_path(p@) ==> r is Some,
        r matches Some(d) ==> (simple_path(p@) ==> d@ == dir_part(p@)),
{
    std::path::Path::new(p).parent().map(|d| d.to_string_lossy().into_owned())
}

/// `std::path::Path::join`, as text. The documentation (`PathBuf::push`) says that a relative
/// `rel` extends `base` (its examples put one separator between `/tmp` and `file.bk`), and
/// that a `rel` with a root or a drive replaces all or part of `base`; a `base` with a
/// Windows verbatim prefix (which holds `\\`) has `rel` normalised. Stated here: for a `base`
/// without `\\`, the result ends with `rel`; when moreover `rel` is plain relative, it is
/// `base`, at most one separator, then `rel`, with exactly one separator after a non-empty
/// `base` without a drive (no `:`) that does not end with `/` (after a bare drive such as
/// `C:`, Windows adds none). Which separator (`/` or `\\`) is used depends on the
/// platform and is not stated.
#[verifier::external_body]
fn path_join(base: &str, rel: &str) -> (r: String)
    ensures
        !base@.contains('\\') ==> rel@.is_suffix_of(r@),
        !base@.contains('\\') && plain_relative(rel@) ==> joined(base@, rel@, r@),
{
    std::path::Path::new(base).join(rel).to_string_lossy().into_owned()
}

/// What [`resolve_relative_path`] gives for `relative` from `parent_path`, as far as it does
/// not depend on the platform. For a `parent_path` without `\\`, the result ends with
/// `relative`; when moreover `relative` is plain relative, the result is the directory of
/// `parent_path` (a strictly shorter start of it, or `.`), at most one separator, then
/// `relative`; that directory is `.` for an empty `parent_path` and the text before the last
/// `/` for a simple one.
pub open spec fn resolved(parent_path: Seq<char>, relative: Seq<char>, r: Seq<char>) -> bool {
    &&& !parent_path.contains('\\') ==> relative.is_suffix_of(r)
    &&& !parent_path.contains('\\') && plain_relative(relative) ==> exists|d: Seq<char>|
        (d == "."@ || (d.len() < parent_path.len() && d.is_prefix_of(parent_path))) && #[trigger] joined(
            d,
            relative,
            r,
        )
    &&& parent_path.len() == 0 && plain_relative(relative) ==> joined("."@, relative, r)
    &&& simple_path(parent_path) && plain_relative(relative) ==> joined(dir_part(parent_path), relative, r)
}

/// The path of `relative` taken from the directory that holds `parent_path` (or from `.`
/// when `parent_path` has no parent); see [`resolved`].
pub fn resolve_relative_path(parent_path: &str, relative: &str) -> (r: String)
    ensures
        resolved(parent_path@, relative@, r@),
{
    let dir = match path_parent(parent_path) {
        Some(d) => d,
        None => String::from_str("."),
    };
    assert(dir@ == "."@ || (dir@.len() < parent_path@.len() && dir@.is_prefix_of(parent_path@)));
    proof {
        reveal_strlit(".");
        if !parent_path@.contains('\\') && dir@ != "."@ {
            assert forall|k: int| 0 <= k < dir@.len() implies dir@[k] != '\\' by {
                assert(dir@[k] == parent_path@[k]);
                if dir@[k] == '\\' {
                    assert(parent_path@.contains('\\'));
                }
            }
            assert(!dir@.contains('\\'));
        }
    }
    let r = path_join(dir.as_str(), relative);
    proof {
        if !parent_path@.contains('\\') && plain_relative(relative@) {
            let d = dir@;
            assert((d == "."@ || (d.len() < parent_path@.len() && d.is_prefix_of(parent_path@))) && joined(
                d,
                relative@,
                r@,
            ));
        }
    }
    r
}

/// Reads a map from its parsed document (`path` is the map's path, used for messages and to
/// locate the tileset).
pub fn map_from_document(path: &str, doc: &XmlDoc) -> (r: Result<MapFile, String>)
    requires
        doc.wf(),
    ensures
        match r {
            Ok(m) => tmx_map(path@, doc.spec_nodes()) matches Ok(v) && v == m.spec_view(v.tileset_source)
                && resolved(path@, v.tileset_source, m.tileset_path@) && layers_sized(m.layers@),
            Err(e) => tmx_map(path@, doc.spec_nodes()) == Err::<TmxView, Seq<char>>(e@),
        },
        r matches Ok(m) ==> m.layers@.len() > 0,
{
    let ghost s = doc.spec_nodes();
    let root = doc.root_element();
    let w = match parse_usize_opt_exec(&doc.attribute(root, "width")) {
        Some(w) => w,
        None => return Err(String::from_str("Attribut 'width' manquant")),
    };
    let h = match parse_usize_opt_exec(&doc.attribute(root, "height")) {
        Some(h) => h,
        None => return Err(String::from_str("Attribut 'height' manquant")),
    };
    let ts = match doc.first_child_named(root, "tileset") {
        Some(t) => t,
        None => return Err(String::from_str("Aucun <tileset> trouvé")),
    };
    proof {
        lemma_tagged_children_in_range(s, root as int, "tileset"@);
    }
    let firstgid = match parse_u32_opt_exec(&doc.attribute(ts, "firstgid")) {
        Some(g) => g,
        None => 1,
    };
    let source = match doc.attribute(ts, "source") {
        Some(src) => src,
        None => return Err(String::from_str("Attribut 'source' manquant dans <tileset>")),
    };
    let tileset_path = resolve_relative_path(path, source.as_str());
    let layers = match read_layers(doc, root, w, h, firstgid) {
        Ok(l) => l,
        Err(e) => return Err(e),
    };
    if layers.len() == 0 {
        let mut m = String::from_str("Aucune couche trouvée dans '");
        push_str(&mut m, path);
        push_str(&mut m, "'");
        return Err(m);
    }
    let groups = doc.children_named(root, "objectgroup");
    proof {
        lemma_tagged_children_in_range(s, root as int, "objectgroup"@);
        assert forall|m: int| 0 <= m < groups@.len() implies #[trigger] groups@[m] < s.len() by {
            assert(groups@.map_values(|j: usize| j as int)[m] == groups@[m] as int);
        }
    }
    let spawn_points = read_spawns(doc, &groups);
    let (objects, npcs) = read_things(doc, &groups);
    Ok(MapFile { layers, tileset_path, firstgid, spawn_points, objects, npcs })
}

/// Reads a map from the text `content` of the `.tmx` file at `path`.
pub fn load_tmx_source(path: &str, content: &str) -> (r: Result<MapFile, String>)
    ensures
        match r {
            Ok(m) => tmx_result(path@, content@) matches Ok(v) && v == m.spec_view(v.tileset_source)
                && resolved(path@, v.tileset_source, m.tileset_path@) && layers_sized(m.layers@),
            Err(e) => tmx_result(path@, content@) == Err::<TmxView, Seq<char>>(e@),
        },
        r matches Ok(m) ==> m.layers@.len() > 0,
{
    match XmlDoc::parse(content) {
        Ok(doc) => map_from_document(path, &doc),
        Err(e) => Err(xml_error(path, &e)),
    }
}

/// Law: the class of a spawn object decides its kind, one class per kind: `player` is the
/// player's spawn, and `slime`, `goblin` and `knight` spawn a slime, a goblin and a knight;
/// every other class spawns nothing.
pub proof fn law_spawn_classes(class: Seq<char>)
    ensures
        (spawn_kind_of(class) == Some(SpawnKind::Player)) == (class == seq!['p', 'l', 'a', 'y', 'e', 'r']),
        (spawn_kind_of(class) == Some(SpawnKind::Enemy(EnemyKind::Slime))) == (class == seq!['s', 'l', 'i', 'm', 'e']),
        (spawn_kind_of(class) == Some(SpawnKind::Enemy(EnemyKind::Goblin))) == (class == seq![
            'g',
            'o',
            'b',
            'l',
            'i',
            'n',
        ]),
        (spawn_kind_of(class) == Some(SpawnKind::Enemy(EnemyKind::Knight))) == (class == seq![
            'k',
            'n',
            'i',
            'g',
            'h',
            't',
        ]),
        spawn_kind_of(class) is None == (class != seq!['p', 'l', 'a', 'y', 'e', 'r'] && class != seq![
            's',
            'l',
            'i',
            'm',
            'e',
        ] && class != seq!['g', 'o', 'b', 'l', 'i', 'n'] && class != seq!['k', 'n', 'i', 'g', 'h', 't']),
{
    reveal_strlit("player");
    reveal_strlit("slime");
    reveal_strlit("goblin");
    reveal_strlit("knight");
    assert("player"@ =~= seq!['p', 'l', 'a', 'y', 'e', 'r']);
    assert("slime"@ =~= seq!['s', 'l', 'i', 'm', 'e']);
    assert("goblin"@ =~= seq!['g', 'o', 'b', 'l', 'i', 'n']);
    assert("knight"@ =~= seq!['k', 'n', 'i', 'g', 'h', 't']);
}

proof fn lemma_digit_char_value(k: nat)
    requires
        k < 10,
    ensures
        is_digit(digit_char(k)),
        digit_value(digit_char(k)) == k,
{
    assert(('0' as nat) == 48);
}

proof fn lemma_decimal_reads_back(n: nat)
    ensures
        decimal(n).len() > 0,
        all_digits(decimal(n)),
        digits_value(decimal(n)) == n,
    decreases n,
{
    lemma_digit_char_value(n % 10);
    let d = decimal(n);
    if n >= 10 {
        lemma_decimal_reads_back(n / 10);
        let q = decimal(n / 10);
        assert(d.drop_last() =~= q);
        assert(d.last() == digit_char(n % 10));
        assert(digits_value(d) == digits_value(q) * 10 + digit_value(d.last()));
        assert(n == (n / 10) * 10 + n % 10);
        assert forall|i: int| 0 <= i < d.len() implies is_digit(#[trigger] d[i]) by {
            if i < q.len() {
                assert(d[i] == q[i]);
            }
        }
    } else {
        assert(d.drop_last() =~= Seq::<char>::empty());
        assert(digits_value(d) == digits_value(d.drop_last()) * 10 + digit_value(d.last()));
    }
}

/// Law: a CSV cell holding the gid `g` gives the tile `g - firstgid` of the tileset; 0 is an
/// empty cell, and a gid below `firstgid` gives tile 0. So two cells from the tileset give the
/// same tile exactly when they hold the same gid.
pub proof fn law_cell_tile(g: u32, h: u32, firstgid: u32)
    ensures
        g == 0 ==> cell_index(decimal(g as nat), firstgid) == EMPTY_TILE,
        g > 0 && g >= firstgid ==> cell_index(decimal(g as nat), firstgid) + firstgid == g,
        g > 0 && g < firstgid ==> cell_index(decimal(g as nat), firstgid) == 0,
        0 < g && firstgid <= g && 0 < h && firstgid <= h ==> (cell_index(decimal(g as nat), firstgid)
            == cell_index(decimal(h as nat), firstgid)) == (g == h),
{
    lemma_cell_reads(g, firstgid);
    lemma_cell_reads(h, firstgid);
}

proof fn lemma_cell_reads(g: u32, firstgid: u32)
    ensures
        parse_unsigned(trim(decimal(g as nat)), u32::MAX as nat) == Some(g as nat),
{
    let d = decimal(g as nat);
    lemma_decimal_reads_back(g as nat);
    assert(!is_ws(d[0]) && is_digit(d[0]));
    assert(trim_start(d) == d);
    assert(is_digit(d.last()));
    assert(trim_end(d) == d);
    assert(d[0] != '+');
}

} // verus!
