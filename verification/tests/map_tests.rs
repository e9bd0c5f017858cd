use zelda_like::map_loader::{load_tmx_source, parse_csv_layer, resolve_relative_path, ObjectKind, SpawnKind, LootKind};
use zelda_like::enemy_type::EnemyKind;
use zelda_like::npc::NpcKind;
use zelda_like::tilemap::{source_rect_origin, Tilemap, EMPTY_TILE};
use zelda_like::tile_properties::{TileKind, TileProperties, TileTable};
use zelda_like::map_utils::png_path_from_tsx_source;

const MAP: &str = r#"<?xml version="1.0" encoding="UTF-8"?>
<map version="1.10" width="3" height="2" tilewidth="16" tileheight="16">
 <tileset firstgid="1" source="tiles.tsx"/>
 <layer id="1" name="sol" width="3" height="2">
  <data encoding="csv">
1,2,3,
4,0,6
</data>
 </layer>
 <objectgroup id="2" name="spawns">
  <object id="1" name="start" class="player" x="32" y="48"/>
  <object id="2" name="s1" type="slime" x="64" y="16"/>
  <object id="3" name="tree" type="decor" x="1" y="1"/>
 </objectgroup>
 <objectgroup id="3" name="objects">
  <object id="4" class="chest" x="10" y="20">
   <properties><property name="contains" value="key"/></properties>
  </object>
  <object id="5" class="transition" x="0" y="0">
   <properties><property name="target_map" value="cave"/><property name="target_entry" value="door"/></properties>
  </object>
  <object id="6" class="npc" x="5" y="6">
   <properties><property name="npc_kind" value="guy"/><property name="dialogue" value="Salut"/></properties>
  </object>
  <object id="7" class="ruby" x="7" y="8"/>
 </objectgroup>
</map>
"#;

const TSX: &str = r#"<?xml version="1.0" encoding="UTF-8"?>
<tileset version="1.10" name="t" tilewidth="16" tileheight="16" tilecount="8" columns="8">
 <image source="tiles.png" width="128" height="16"/>
 <tile id="3"><properties><property name="kind" value="solid"/><property name="name" value="Mur"/></properties></tile>
 <tile id="5"><properties><property name="kind" value="water"/></properties></tile>
</tileset>
"#;

#[test]
fn csv_layer_reads_the_grid() {
    let grid = parse_csv_layer("1,2,3\n4,5,6\n", 3, 2, 1).unwrap();
    assert_eq!(grid, vec![vec![0, 1, 2], vec![3, 4, 5]]);
}

#[test]
fn csv_layer_empty_cells_and_firstgid() {
    let grid = parse_csv_layer("0,12,5", 3, 1, 10).unwrap();
    assert_eq!(grid, vec![vec![EMPTY_TILE, 2, 0]]);
}

#[test]
fn csv_layer_skips_blank_lines_and_trailing_commas() {
    let grid = parse_csv_layer("  1, 2,\n\n   \n3 ,4,,\n", 2, 2, 1).unwrap();
    assert_eq!(grid, vec![vec![0, 1], vec![2, 3]]);
}

#[test]
fn csv_layer_unreadable_cell_is_empty() {
    let grid = parse_csv_layer("x,+3,99999999999", 3, 1, 1).unwrap();
    assert_eq!(grid, vec![vec![EMPTY_TILE, 2, EMPTY_TILE]]);
}

#[test]
fn csv_layer_wrong_width() {
    let r = parse_csv_layer("1,2\n3\n", 2, 2, 1);
    assert_eq!(r, Err("Ligne 1 : 1 colonnes, attendu 2".to_string()));
}

#[test]
fn csv_layer_wrong_height() {
    let r = parse_csv_layer("1,2\n", 2, 2, 1);
    assert_eq!(r, Err("1 lignes trouvées, attendu 2".to_string()));
}

#[test]
fn tmx_is_read() {
    let m = load_tmx_source("maps/test.tmx", MAP).unwrap();
    assert_eq!(m.firstgid, 1);
    assert_eq!(m.layers.len(), 1);
    assert_eq!(m.layers[0].name, "sol");
    assert_eq!(m.layers[0].tilemap.tiles, vec![vec![0, 1, 2], vec![3, EMPTY_TILE, 5]]);
    assert_eq!(m.layers[0].tilemap.rows, 2);
    assert_eq!(m.layers[0].tilemap.cols, 3);
    assert_eq!(m.tileset_path, "maps/tiles.tsx");

    assert_eq!(m.spawn_points.len(), 2);
    assert_eq!(m.spawn_points[0].kind, SpawnKind::Player);
    assert_eq!(m.spawn_points[0].name, "start");
    assert_eq!(m.spawn_points[0].x, Some("32".to_string()));
    assert_eq!(m.spawn_points[0].y, Some("48".to_string()));
    assert_eq!(m.spawn_points[1].kind, SpawnKind::Enemy(EnemyKind::Slime));

    assert_eq!(m.objects.len(), 3);
    assert_eq!(m.objects[0].kind, ObjectKind::Chest { contains: LootKind::Key });
    assert_eq!(
        m.objects[1].kind,
        ObjectKind::Transition { target_map: "cave".to_string(), target_entry: "door".to_string() }
    );
    assert_eq!(m.objects[1].x, Some("0".to_string()));
    assert!(matches!(m.objects[2].kind, ObjectKind::Ruby(_)));

    assert_eq!(m.npcs.len(), 1);
    assert_eq!(m.npcs[0].kind, NpcKind::Guy);
    assert_eq!(m.npcs[0].dialogue, "Salut");
    assert!(m.npcs[0].solid);
    assert_eq!(m.npcs[0].patrol_dx, None);
}

#[test]
fn tmx_errors() {
    let no_width = MAP.replace(" width=\"3\" height=\"2\" tilewidth", " height=\"2\" tilewidth");
    assert_eq!(load_tmx_source("m.tmx", &no_width).err(), Some("Attribut 'width' manquant".to_string()));

    let no_height = MAP.replace(" width=\"3\" height=\"2\" tilewidth", " width=\"3\" tilewidth");
    assert_eq!(load_tmx_source("m.tmx", &no_height).err(), Some("Attribut 'height' manquant".to_string()));

    let no_tileset = MAP.replace("<tileset firstgid=\"1\" source=\"tiles.tsx\"/>", "");
    assert_eq!(load_tmx_source("m.tmx", &no_tileset).err(), Some("Aucun <tileset> trouvé".to_string()));

    let no_source = MAP.replace(" source=\"tiles.tsx\"", "");
    assert_eq!(
        load_tmx_source("m.tmx", &no_source).err(),
        Some("Attribut 'source' manquant dans <tileset>".to_string())
    );

    let base64 = MAP.replace("encoding=\"csv\"", "encoding=\"base64\"");
    assert_eq!(
        load_tmx_source("m.tmx", &base64).err(),
        Some("Couche 'sol' : encodage 'base64' non supporté. Choisissez CSV dans Tiled.".to_string())
    );

    let start = MAP.find(" <layer").unwrap();
    let end = MAP.find("</layer>").unwrap() + "</layer>".len();
    let no_layer = format!("{}{}", &MAP[..start], &MAP[end..]);
    assert_eq!(load_tmx_source("m.tmx", &no_layer).err(), Some("Aucune couche trouvée dans 'm.tmx'".to_string()));

    let narrow = MAP.replace("4,0,6", "4,0");
    assert_eq!(load_tmx_source("m.tmx", &narrow).err(), Some("Ligne 1 : 2 colonnes, attendu 3".to_string()));

    let e = load_tmx_source("m.tmx", "<map").err().unwrap();
    assert!(e.starts_with("Erreur XML dans 'm.tmx': "));
}

#[test]
fn tileset_is_read() {
    let t = match TileTable::from_tsx_source("t.tsx", TSX) {
        Ok(t) => t,
        Err(e) => panic!("{}", e),
    };
    assert_eq!(t.tiles_per_row, 8);
    assert_eq!(t.tiles_per_row(), 8);
    let p = t.get(3);
    assert_eq!(p.name, "Mur");
    assert_eq!(p.kind, TileKind::Solid);
    let p = t.get(5);
    assert_eq!(p.name, "Tuile 5");
    assert_eq!(p.kind, TileKind::Water);
    let p = t.get(7);
    assert_eq!(p.name, "Tuile 7");
    assert_eq!(p.kind, TileKind::Walkable);
    assert!(t.is_blocking(3));
    assert!(t.is_blocking(5));
    assert!(!t.is_blocking(7));
}

#[test]
fn tileset_defaults_and_errors() {
    let t = match TileTable::from_tsx_source("t.tsx", "<tileset/>") {
        Ok(t) => t,
        Err(e) => panic!("{}", e),
    };
    assert_eq!(t.tiles_per_row, 16);
    assert_eq!(t.get(0).name, "Tuile 0");
    match TileTable::from_tsx_source("t.tsx", "<tileset") {
        Ok(_) => panic!("a broken tileset was read"),
        Err(e) => assert!(e.starts_with("Erreur XML dans 't.tsx': ")),
    }
}

#[test]
fn tile_table_by_hand() {
    let mut t = TileTable::new(4);
    t.insert(1, TileProperties { name: "Porte".to_string(), kind: TileKind::Door });
    t.insert(1, TileProperties { name: "Escalier".to_string(), kind: TileKind::Stairs });
    assert_eq!(t.get(1).name, "Escalier");
    assert!(!t.is_blocking(1));
    assert_eq!(TileKind::from_str("door"), TileKind::Door);
    assert_eq!(TileKind::from_str("Door"), TileKind::Walkable);
    assert!(TileKind::Water.is_blocking());
    assert!(!TileKind::Stairs.is_blocking());
}

#[test]
fn tileset_image_path() {
    assert_eq!(png_path_from_tsx_source("assets/t.tsx", TSX), Ok("assets/tiles.png".to_string()));
    assert_eq!(
        png_path_from_tsx_source("assets/t.tsx", "<tileset><image/></tileset>"),
        Err("Attribut 'source' manquant dans <image> du TSX".to_string())
    );
    let e = png_path_from_tsx_source("assets/t.tsx", "<tileset>").err().unwrap();
    assert!(e.starts_with("Erreur XML: "));
}

#[test]
fn relative_paths() {
    assert_eq!(resolve_relative_path("maps/a.tmx", "b.tsx"), "maps/b.tsx");
    assert_eq!(resolve_relative_path("", "b.tsx"), "./b.tsx");
    assert_eq!(resolve_relative_path("maps/a.tmx", "/abs/t.tsx"), "/abs/t.tsx");
    assert_eq!(resolve_relative_path("maps/sub/", "../t.tsx"), "maps/../t.tsx");
    assert_eq!(resolve_relative_path("a.tmx", "t.tsx"), "t.tsx");
}

#[test]
fn tilemap_cells() {
    let mut table = TileTable::new(8);
    table.insert(1, TileProperties { name: "Mur".to_string(), kind: TileKind::Solid });
    let m = Tilemap::new(vec![vec![0, 1], vec![EMPTY_TILE, 2]]);
    assert_eq!(m.rows, 2);
    assert_eq!(m.cols, 2);
    assert_eq!(m.get_tile(1, 0), Some(1));
    assert_eq!(m.get_tile(2, 0), None);
    assert_eq!(m.get_tile(-1, 0), None);
    assert!(m.is_solid(1, 0, &table));
    assert!(!m.is_solid(0, 0, &table));
    assert!(!m.is_solid(0, 1, &table));
    assert!(m.is_solid(0, 2, &table));
    let empty = Tilemap::new(vec![]);
    assert_eq!(empty.rows, 0);
    assert_eq!(empty.cols, 0);
    assert_eq!(empty.get_tile(0, 0), None);
}

#[test]
fn source_rectangles() {
    assert_eq!(source_rect_origin(10, 8), (32, 16));
    assert_eq!(source_rect_origin(0, 16), (0, 0));
}

#[test]
fn small_map_is_read_whole() {
    let text = "<map width='2' height='2'><tileset firstgid='1' source='t.tsx'/><layer name='sol'><data encoding='csv'>1,0,\n3,2</data></layer></map>";
    let mf = load_tmx_source("m/a.tmx", text).unwrap();
    assert_eq!(mf.layers.len(), 1);
    assert_eq!(mf.layers[0].name, "sol");
    assert_eq!(mf.layers[0].tilemap.tiles, vec![vec![0, EMPTY_TILE], vec![2, 1]]);
    assert_eq!(mf.layers[0].tilemap.rows, 2);
    assert_eq!(mf.layers[0].tilemap.cols, 2);
    assert_eq!(mf.firstgid, 1);
    assert_eq!(mf.tileset_path, "m/t.tsx");
    assert!(mf.spawn_points.is_empty());
    assert!(mf.objects.is_empty());
    assert!(mf.npcs.is_empty());
}
