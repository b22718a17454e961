use std::cell::Cell;
use std::collections::HashMap;
use std::rc::Rc;
use tego::color::Color;
use tego::gid::GID;
use tego::layer::Layer;
use tego::math::{ivec2, Rect};
use tego::object::ObjectKind;
use tego::property::{PropertyContainer, PropertyValue};
use tego::resource_manager::{
    template_from_text, text_from_bytes, text_from_read, ImageHandle, ImageLoader, LazyLoader,
    Provider, ResourceManager,
};
use tego::tilemap::{Orientation, Renderorder, TileMap};
use tego::tileset::{ImageStorage, TileSet};
use tego::version::Version;
use tego::xml::Element;
use tego::Error;

/// Files kept in memory, and the number of times that one was read.
struct Files {
    files: HashMap<String, Vec<u8>>,
    reads: Rc<Cell<usize>>,
}

impl Files {
    fn none() -> Files {
        Files { files: HashMap::new(), reads: Rc::new(Cell::new(0)) }
    }

    fn with(entries: &[(&str, &str)]) -> Files {
        let mut files = Files::none();
        for (path, text) in entries {
            files.files.insert(path.to_string(), text.as_bytes().to_vec());
        }
        files
    }
}

impl Provider for Files {
    fn read(&mut self, base_path: &str, path: &str) -> Result<Vec<u8>, Error> {
        self.reads.set(self.reads.get() + 1);
        match self.files.get(&format!("{}/{}", base_path, path)) {
            Some(data) => Ok(data.clone()),
            None => Err(Error::IO(format!("no file {}/{}", base_path, path))),
        }
    }
}

/// Makes an image of the length of the path, and counts the calls.
struct Counting {
    calls: Rc<Cell<usize>>,
}

impl ImageLoader<usize> for Counting {
    fn load(&mut self, path: &str) -> Result<usize, Error> {
        self.calls.set(self.calls.get() + 1);
        if path.ends_with(".missing") {
            Err(Error::IO(format!("cannot load {}", path)))
        } else {
            Ok(path.len())
        }
    }
}

fn lazy() -> ResourceManager<String> {
    ResourceManager::new(LazyLoader {}, Files::none())
}

#[test]
fn test_default_render_order() {
    // explicitly no renderorder
    let map_xml = r#"
            <map
                version="1.5"
                orientation="orthogonal"
                width="1"
                height="1"
                tilewidth="1"
                tileheight="1"
            />
        "#;

    let map = TileMap::from_xml_str(&map_xml, &mut lazy()).unwrap();
    assert_eq!(map.renderorder, Renderorder::RightDown);
}

#[test]
fn a_minimal_map() {
    let text = r#"<map version="1.5" orientation="orthogonal" width="1" height="1" tilewidth="1" tileheight="1"/>"#;
    let map = TileMap::from_xml_str(text, &mut lazy()).unwrap();
    assert_eq!(map.version, Version(1, 5, None));
    assert_eq!(map.editor_version, None);
    assert_eq!(map.orientation, Orientation::Orthogonal);
    assert_eq!(map.renderorder, Renderorder::RightDown);
    assert_eq!(map.size, ivec2::new(1, 1));
    assert_eq!(map.tile_size, ivec2::new(1, 1));
    assert_eq!(map.tilesets.len(), 0);
    assert_eq!(map.layers.len(), 0);
    assert_eq!(map.backgroundcolor, Color::default());
    assert_eq!(map.properties.len(), 0);
    assert!(map.iter_layers().is_empty());
}

fn example() -> &'static str {
    r##"<?xml version="1.0" encoding="UTF-8"?>
<map version="1.5" tiledversion="1.7.2" orientation="orthogonal" renderorder="right-down"
     width="2" height="2" tilewidth="16" tileheight="16" backgroundcolor="#336699">
 <properties>
  <property name="author" value="me"/>
 </properties>
 <tileset firstgid="1" name="tiles" tilewidth="16" tileheight="16" spacing="1" margin="2" tilecount="49" columns="7">
  <image source="tiles.png" width="128" height="128"/>
 </tileset>
 <tileset firstgid="50" name="more" tilewidth="8" tileheight="8" tilecount="4" columns="2">
  <properties><property name="kind" value="small"/></properties>
  <image source="more.png" width="16" height="16"/>
 </tileset>
 <layer id="1" name="Tile Layer 1" width="2" height="2">
  <data encoding="base64" compression="zlib">
   eJxjZGBgYAJiZgaGBiDFAAAC0ACH
  </data>
 </layer>
 <group id="2" name="Objects">
  <objectgroup id="3" name="first">
   <object id="1" x="1" y="2" width="3" height="4"><ellipse/></object>
   <object id="2" x="1" y="2"><polygon points="0,0 16,0 16,16"/></object>
   <object id="3" x="1" y="2"><text wrap="1">Hello World</text></object>
  </objectgroup>
  <layer id="4" name="inner" width="2" height="2">
   <data encoding="base64">AAAAAAAAAAAAAAAAAAAAAA==</data>
  </layer>
  <objectgroup id="5" name="second">
   <object id="4" x="1" y="2" width="3" height="4"/>
   <object id="5" x="1" y="2"><point/></object>
  </objectgroup>
 </group>
</map>"##
}

#[test]
fn a_whole_map() {
    let mut manager = lazy();
    manager.set_base_path("maps".to_string());
    assert_eq!(manager.base_path(), "maps");
    let map = TileMap::from_xml_str(example(), &mut manager).unwrap();

    assert_eq!(map.version, Version(1, 5, None));
    assert_eq!(map.editor_version, Some(Version(1, 7, Some(2))));
    assert_eq!(map.backgroundcolor, Color::from_argb(255, 0x33, 0x66, 0x99));
    assert_eq!(map.properties.get("author"), Some(&PropertyValue::String("me".into())));

    assert_eq!(map.tilesets.len(), 2);
    let tiles = &map.tilesets[0];
    assert_eq!(tiles.firstgid, GID::new(1).unwrap());
    assert_eq!(tiles.name, "tiles");
    assert_eq!(tiles.tile_size, ivec2::new(16, 16));
    assert_eq!((tiles.spacing, tiles.margin, tiles.tilecount, tiles.columns), (1, 2, 49, 7));
    assert_eq!(tiles.image, ImageStorage::SpriteSheet(ImageHandle(0)));
    assert_eq!(map.tilesets[1].image, ImageStorage::SpriteSheet(ImageHandle(1)));
    assert_eq!((map.tilesets[1].spacing, map.tilesets[1].margin), (0, 0));
    assert_eq!(map.tilesets[1].properties.len(), 1);
    // the lazy loader hands the resolved path back
    assert_eq!(manager.image(ImageHandle(0)).unwrap(), "maps/tiles.png");
    assert_eq!(manager.image(ImageHandle(1)).unwrap(), "maps/more.png");
    assert!(manager.image(ImageHandle(2)).is_none());

    assert_eq!(map.layers.len(), 2);
    assert!(matches!(map.layers[0], Layer::Tile(_)));
    assert!(matches!(map.layers[1], Layer::Group(_)));
    if let Layer::Group(ref g) = map.layers[1] {
        assert_eq!(g.name, "Objects");
        assert_eq!(g.content.len(), 3);
    }

    let walk = map.iter_layers();
    assert_eq!(walk.len(), 5);
    assert_eq!(walk.iter().map(|i| i.1).collect::<Vec<_>>(), vec![0, 0, 0, 0, 0]);

    let object_layers: Vec<_> = walk
        .iter()
        .filter_map(|(l, _)| match l {
            Layer::Object(x) => Some(x),
            _ => None,
        })
        .collect();
    assert_eq!(object_layers.len(), 2);

    let objects = &object_layers[0].content;
    assert_eq!(objects.len(), 3);
    assert!(matches!(&objects[0].kind, ObjectKind::Ellipse));
    assert!(matches!(&objects[1].kind, ObjectKind::Polygon { .. }));
    if let ObjectKind::Text { content, .. } = &objects[2].kind {
        assert_eq!(content, "Hello World");
    } else {
        panic!("Expected object to be a text object");
    }

    let objects = &object_layers[1].content;
    assert_eq!(objects.len(), 2);
    assert!(matches!(&objects[0].kind, ObjectKind::Rect));
    assert!(matches!(&objects[1].kind, ObjectKind::Point));

    if let Layer::Tile(layer) = &map.layers[0] {
        assert_eq!(layer.size, ivec2::new(2, 2));
        let mut cells = layer.tiles_in_renderorder(&map).unwrap();
        let mut seen = 0;
        while let Some((pos, gid)) = cells.next() {
            seen += 1;
            if gid.is_none() {
                assert_eq!(pos, ivec2::new(1, 1));
                continue;
            }
            // We must be able to resolve all GIDs that we find in a valid map
            let (image, src) = map.tile_image(gid.unwrap()).unwrap();
            assert_eq!(image, ImageHandle(0));
            assert_eq!(src.size, ivec2::new(16, 16));
        }
        assert_eq!(seen, 4);
    } else {
        panic!("expected a tile layer");
    }
}

fn tileset(firstgid: u32, handle: usize, columns: usize) -> TileSet {
    TileSet {
        firstgid: GID::new(firstgid).unwrap(),
        name: "set".into(),
        tile_size: ivec2::new(16, 8),
        spacing: 1,
        margin: 2,
        tilecount: 49,
        columns,
        image: ImageStorage::SpriteSheet(ImageHandle(handle)),
        properties: PropertyContainer::new(),
    }
}

fn map_with(tilesets: Vec<TileSet>, renderorder: Renderorder) -> TileMap {
    TileMap {
        version: Version(1, 5, None),
        editor_version: None,
        orientation: Orientation::Orthogonal,
        renderorder,
        size: ivec2::new(4, 4),
        tile_size: ivec2::new(16, 8),
        tilesets,
        backgroundcolor: Color::default(),
        layers: vec![],
        properties: PropertyContainer::new(),
    }
}

#[test]
fn tile_ids_are_parted_among_the_tile_sets() {
    let map = map_with(vec![tileset(1, 10, 7), tileset(50, 20, 7)], Renderorder::RightDown);
    let owner = |id: u32| map.tile_image(GID::new(id).unwrap()).map(|r| r.0);
    assert_eq!(owner(1), Some(ImageHandle(10)));
    assert_eq!(owner(49), Some(ImageHandle(10)));
    assert_eq!(owner(50), Some(ImageHandle(20)));
    assert_eq!(owner(51), Some(ImageHandle(20)));
    assert_eq!(owner(0x1FFF_FFFF), Some(ImageHandle(20)));
    // the flip flags do not count
    assert_eq!(owner(0x8000_0000 | 49), Some(ImageHandle(10)));
    assert_eq!(owner(0xE000_0000 | 50), Some(ImageHandle(20)));
    // the index 0 belongs to no tile set
    assert_eq!(owner(0x8000_0000), None);
    assert_eq!(map.tileset_of(GID::new(49).unwrap()), Some(0));
    assert_eq!(map.tileset_of(GID::new(50).unwrap()), Some(1));
    assert_eq!(map.tileset_of(GID::new(0x4000_0000).unwrap()), None);

    // asking again gives the same answer
    let gid = GID::new(49).unwrap();
    assert_eq!(map.tile_image(gid), map.tile_image(gid));

    let late = map_with(vec![tileset(5, 10, 7), tileset(50, 20, 7)], Renderorder::RightDown);
    assert_eq!(late.tile_image(GID::new(4).unwrap()), None);
    assert_eq!(late.tile_image(GID::new(1).unwrap()), None);
    assert!(late.tile_image(GID::new(5).unwrap()).is_some());

    let none = map_with(vec![], Renderorder::RightDown);
    assert_eq!(none.tile_image(GID::new(1).unwrap()), None);

    // out of order, the largest first id that is not above the tile id wins
    let mixed = map_with(vec![tileset(50, 20, 7), tileset(1, 10, 7)], Renderorder::RightDown);
    assert_eq!(mixed.tile_image(GID::new(60).unwrap()).unwrap().0, ImageHandle(20));
    assert_eq!(mixed.tile_image(GID::new(49).unwrap()).unwrap().0, ImageHandle(10));
}

#[test]
fn a_tile_is_a_rectangle_in_the_image() {
    // tiles of 16 by 8, spaced by 1, with a margin of 2, seven in a row
    let map = map_with(vec![tileset(1, 0, 7)], Renderorder::RightDown);
    let rect = |id: u32| map.tile_image(GID::new(id).unwrap()).unwrap().1;
    assert_eq!(rect(1), Rect::new(ivec2::new(2, 2), ivec2::new(16, 8)));
    assert_eq!(rect(2), Rect::new(ivec2::new(2 + 17, 2), ivec2::new(16, 8)));
    assert_eq!(rect(7), Rect::new(ivec2::new(2 + 6 * 17, 2), ivec2::new(16, 8)));
    assert_eq!(rect(8), Rect::new(ivec2::new(2, 2 + 9), ivec2::new(16, 8)));
    assert_eq!(rect(24), Rect::new(ivec2::new(2 + 2 * 17, 2 + 3 * 9), ivec2::new(16, 8)));
    assert_eq!(rect(0x4000_0000 | 24), rect(24));

    let second = map_with(vec![tileset(1, 0, 7), tileset(50, 1, 2)], Renderorder::RightDown);
    assert_eq!(
        second.tile_image(GID::new(53).unwrap()),
        Some((ImageHandle(1), Rect::new(ivec2::new(2 + 17, 2 + 9), ivec2::new(16, 8))))
    );

    // no columns, no rectangle
    let flat = map_with(vec![tileset(1, 0, 0)], Renderorder::RightDown);
    assert_eq!(flat.tile_image(GID::new(1).unwrap()), None);
    // a corner that does not fit in 32 bits
    let mut huge = tileset(1, 0, 1);
    huge.tile_size = ivec2::new(16, i32::MAX);
    let tall = map_with(vec![huge], Renderorder::RightDown);
    assert!(tall.tile_image(GID::new(1).unwrap()).is_some());
    assert_eq!(tall.tile_image(GID::new(2).unwrap()), None);
}

#[test]
fn a_layer_of_sixteen_zeros() {
    let text = r#"<map version="1.5" orientation="orthogonal" width="4" height="4" tilewidth="1" tileheight="1">
        <layer width="4" height="4">
            <data encoding="base64">AAAAAAAAAAAAAAAAAAAAAAAAAAAAAAAAAAAAAAAAAAAAAAAAAAAAAAAAAAAAAAAAAAAAAAAAAAAAAAAAAAAAAA==</data>
        </layer>
    </map>"#;
    let map = TileMap::from_xml_str(text, &mut lazy()).unwrap();
    let layer = match &map.layers[0] {
        Layer::Tile(layer) => layer,
        _ => panic!("expected a tile layer"),
    };
    assert_eq!(layer.tiles.len(), 16);
    assert!(layer.tiles.iter().all(|t| t.is_none()));

    let mut cells = layer.tiles_in_renderorder(&map).unwrap();
    let mut visited = Vec::new();
    while let Some((pos, gid)) = cells.next() {
        assert!(gid.is_none());
        visited.push((pos.x, pos.y));
    }
    assert!(cells.next().is_none());
    let mut expected = Vec::new();
    for y in 0..4 {
        for x in 0..4 {
            expected.push((x, y));
        }
    }
    assert_eq!(visited, expected);
}

#[test]
fn cells_come_row_by_row() {
    let text = r#"<map version="1.5" orientation="orthogonal" width="2" height="2" tilewidth="1" tileheight="1">
        <layer width="2" height="2"><data encoding="base64">AQAAAAIAAAADAACAAAAAAA==</data></layer>
        <layer width="0" height="3"><data encoding="base64"></data></layer>
    </map>"#;
    let mut map = TileMap::from_xml_str(text, &mut lazy()).unwrap();
    {
        let layer = match &map.layers[0] {
            Layer::Tile(layer) => layer,
            _ => panic!("expected a tile layer"),
        };
        let mut cells = layer.tiles_in_renderorder(&map).unwrap();
        assert_eq!(cells.next(), Some((ivec2::new(0, 0), GID::new(1))));
        assert_eq!(cells.next(), Some((ivec2::new(1, 0), GID::new(2))));
        assert_eq!(cells.next(), Some((ivec2::new(0, 1), GID::new(0x8000_0003))));
        assert_eq!(cells.next(), Some((ivec2::new(1, 1), None)));
        assert_eq!(cells.next(), None);

        let empty = match &map.layers[1] {
            Layer::Tile(layer) => layer,
            _ => panic!("expected a tile layer"),
        };
        assert!(empty.tiles_in_renderorder(&map).unwrap().next().is_none());
    }

    // a layer made by hand that has not one tile for each cell
    let mut broken = match map.layers.remove(0) {
        Layer::Tile(layer) => layer,
        _ => panic!("expected a tile layer"),
    };
    broken.tiles.pop();
    assert!(matches!(broken.tiles_in_renderorder(&map), Err(Error::StructureError { .. })));
    broken.tiles.push(None);
    assert!(broken.tiles_in_renderorder(&map).is_ok());

    for order in [Renderorder::RightUp, Renderorder::LeftDown, Renderorder::LeftUp] {
        map.renderorder = order;
        assert!(matches!(broken.tiles_in_renderorder(&map), Err(Error::UnsupportedFeature(_))));
    }
}

#[test]
fn map_errors() {
    let read = |text: &str| TileMap::from_xml_str(text, &mut lazy());
    assert!(matches!(read("not xml"), Err(Error::ParseError(_))));
    match read(r#"<tileset version="1.5"/>"#) {
        Err(Error::StructureError { tag, msg }) => {
            assert_eq!(tag, "tileset");
            assert_eq!(msg, "Expected tag 'map' at root level, got 'tileset'.");
        }
        other => panic!("expected a structure error, got {:?}", other),
    }
    let all = [
        ("version", "1.5"),
        ("orientation", "orthogonal"),
        ("width", "1"),
        ("height", "1"),
        ("tilewidth", "1"),
        ("tileheight", "1"),
    ];
    for missing in 0..all.len() {
        let attributes: Vec<String> = all
            .iter()
            .enumerate()
            .filter(|(i, _)| *i != missing)
            .map(|(_, (k, v))| format!(r#"{}="{}""#, k, v))
            .collect();
        match read(&format!("<map {}/>", attributes.join(" "))) {
            Err(Error::StructureError { tag, msg }) => {
                assert_eq!(tag, "map");
                assert_eq!(msg, format!("Required attribute '{}' missing", all[missing].0));
            }
            other => panic!("expected a structure error, got {:?}", other),
        }
    }
    let with = |extra: &str| {
        format!(
            r#"<map version="1.5" orientation="orthogonal" width="1" height="1" tilewidth="1" tileheight="1" {}/>"#,
            extra
        )
    };
    assert!(read(&with("")).is_ok());
    for extra in [
        r#"renderorder="diagonal""#,
        r#"backgroundcolor="blue""#,
        r#"tiledversion="latest""#,
    ] {
        assert!(matches!(read(&with(extra)), Err(Error::ParseError(_))), "{}", extra);
    }
    assert!(matches!(
        read(r#"<map version="1" orientation="orthogonal" width="1" height="1" tilewidth="1" tileheight="1"/>"#),
        Err(Error::ParseError(_))
    ));
    assert!(matches!(
        read(r#"<map version="1.5" orientation="flat" width="1" height="1" tilewidth="1" tileheight="1"/>"#),
        Err(Error::ParseError(_))
    ));
    // other orders and orientations are read
    let map = read(&with(r#"renderorder="left-up""#)).unwrap();
    assert_eq!(map.renderorder, Renderorder::LeftUp);
    // a fault in a layer fails the map
    let broken = r#"<map version="1.5" orientation="orthogonal" width="1" height="1" tilewidth="1" tileheight="1">
        <group><layer width="1" height="1"><data encoding="csv">1</data></layer></group></map>"#;
    assert!(matches!(read(broken), Err(Error::UnsupportedFeature(_))));
}

#[test]
fn tileset_errors() {
    let read = |tileset: &str| {
        let text = format!(
            r#"<map version="1.5" orientation="orthogonal" width="1" height="1" tilewidth="1" tileheight="1">{}</map>"#,
            tileset
        );
        TileMap::from_xml_str(&text, &mut lazy())
    };
    assert!(read(r#"<tileset firstgid="1" name="t" tilewidth="1" tileheight="1" tilecount="1" columns="1"><image source="i.png"/></tileset>"#).is_ok());
    match read(r#"<tileset firstgid="1" name="t" tilewidth="1" tileheight="1" tilecount="1" columns="1"/>"#) {
        Err(Error::UnsupportedFeature(msg)) => {
            assert_eq!(msg, "Image collection tilesets are not implemented yet")
        }
        other => panic!("expected an unsupported feature, got {:?}", other),
    }
    match read(r#"<tileset firstgid="1" name="t" tilewidth="1" tileheight="1" tilecount="1" columns="1"><image/></tileset>"#) {
        Err(Error::StructureError { tag, msg }) => {
            assert_eq!(tag, "image");
            assert_eq!(msg, "Missing 'source' tag on image");
        }
        other => panic!("expected a structure error, got {:?}", other),
    }
    for (attributes, missing) in [
        (r#"name="t" tilewidth="1" tileheight="1" tilecount="1" columns="1""#, "firstgid"),
        (r#"firstgid="1" tilewidth="1" tileheight="1" tilecount="1" columns="1""#, "name"),
        (r#"firstgid="1" name="t" tileheight="1" tilecount="1" columns="1""#, "tilewidth"),
        (r#"firstgid="1" name="t" tilewidth="1" tilecount="1" columns="1""#, "tileheight"),
        (r#"firstgid="1" name="t" tilewidth="1" tileheight="1" columns="1""#, "tilecount"),
        (r#"firstgid="1" name="t" tilewidth="1" tileheight="1" tilecount="1""#, "columns"),
    ] {
        match read(&format!(r#"<tileset {}><image source="i.png"/></tileset>"#, attributes)) {
            Err(Error::StructureError { tag, msg }) => {
                assert_eq!(tag, "tileset");
                assert_eq!(msg, format!("Required attribute '{}' missing", missing));
            }
            other => panic!("expected a structure error, got {:?}", other),
        }
    }
    for attributes in [
        r#"firstgid="0" name="t" tilewidth="1" tileheight="1" tilecount="1" columns="1""#,
        r#"firstgid="1" name="t" tilewidth="1" tileheight="1" tilecount="1" columns="-1""#,
        r#"firstgid="1" name="t" tilewidth="1" tileheight="1" tilecount="1" columns="1" spacing="x""#,
        r#"firstgid="1" name="t" tilewidth="1" tileheight="1" tilecount="1" columns="1" margin="1.5""#,
    ] {
        assert!(
            matches!(
                read(&format!(r#"<tileset {}><image source="i.png"/></tileset>"#, attributes)),
                Err(Error::ParseError(_))
            ),
            "{}",
            attributes
        );
    }
}

#[test]
fn a_tile_set_in_a_file_of_its_own() {
    let files = Files::with(&[
        (
            "maps/sets/outdoor.tsx",
            r#"<tileset firstgid="999" name="outdoor" tilewidth="16" tileheight="16" tilecount="4" columns="2">
                 <image source="outdoor.png"/>
               </tileset>"#,
        ),
        ("maps/broken.tsx", "<tileset"),
        ("maps/binary.tsx", "\u{0}"),
    ]);
    let reads = files.reads.clone();
    let mut manager: ResourceManager<String> = ResourceManager::new(LazyLoader {}, files);
    manager.set_base_path("maps".into());
    let map = |source: &str| {
        format!(
            r#"<map version="1.5" orientation="orthogonal" width="1" height="1" tilewidth="1" tileheight="1">
                 <tileset firstgid="7" source="{}"/>
               </map>"#,
            source
        )
    };
    let loaded = TileMap::from_xml_str(&map("sets/outdoor.tsx"), &mut manager).unwrap();
    assert_eq!(reads.get(), 1);
    assert_eq!(loaded.tilesets.len(), 1);
    // the first global id is that of the map
    assert_eq!(loaded.tilesets[0].firstgid, GID::new(7).unwrap());
    assert_eq!(loaded.tilesets[0].name, "outdoor");
    assert_eq!(loaded.tilesets[0].columns, 2);
    match loaded.tilesets[0].image {
        ImageStorage::SpriteSheet(handle) => {
            assert_eq!(manager.image(handle).unwrap(), "maps/outdoor.png")
        }
    }

    assert!(matches!(
        TileMap::from_xml_str(&map("nowhere.tsx"), &mut manager),
        Err(Error::IO(_))
    ));
    assert!(matches!(
        TileMap::from_xml_str(&map("broken.tsx"), &mut manager),
        Err(Error::ParseError(_))
    ));
    assert_eq!(manager.load_text("sets/outdoor.tsx").unwrap().len() > 0, true);
}

#[test]
fn bytes_that_are_no_text() {
    assert_eq!(text_from_bytes(b"plain".to_vec()).unwrap(), "plain");
    assert_eq!(text_from_bytes("né€😀".as_bytes().to_vec()).unwrap(), "né€😀");
    assert_eq!(text_from_bytes(vec![]).unwrap(), "");
    for bytes in [vec![0xFFu8], vec![0xC3], vec![b'a', 0x80], vec![0xED, 0xA0, 0x80]] {
        assert!(matches!(text_from_bytes(bytes), Err(Error::ParseError(_))));
    }
    let mut files = Files::none();
    files.files.insert("./bad.txt".into(), vec![0xFF, 0xFE]);
    files.files.insert("./good.txt".into(), b"good".to_vec());
    let mut manager: ResourceManager<String> = ResourceManager::new(LazyLoader {}, files);
    assert!(matches!(manager.load_text("bad.txt"), Err(Error::ParseError(_))));
    assert_eq!(manager.load_text("good.txt").unwrap(), "good");
    assert!(matches!(manager.load_text("none.txt"), Err(Error::IO(_))));
}

#[test]
fn images_are_loaded_once() {
    let calls = Rc::new(Cell::new(0));
    let mut manager = ResourceManager::new(Counting { calls: calls.clone() }, Files::none());
    manager.set_base_path("base".into());

    let first = manager.load_image("a.png").unwrap();
    assert_eq!(calls.get(), 1);
    let second = manager.load_image("a.png").unwrap();
    let third = manager.load_image("a.png").unwrap();
    assert_eq!(calls.get(), 1);
    assert_eq!(first, second);
    assert_eq!(first, third);
    // the same handle is the same image, not a copy of it
    assert!(std::ptr::eq(manager.image(first).unwrap(), manager.image(second).unwrap()));
    assert_eq!(*manager.image(first).unwrap(), "base/a.png".len());

    let other = manager.load_image("bb.png").unwrap();
    assert_eq!(calls.get(), 2);
    assert_ne!(first, other);
    assert_eq!(*manager.image(other).unwrap(), "base/bb.png".len());
    assert_eq!(manager.load_image("a.png").unwrap(), first);
    assert_eq!(calls.get(), 2);

    // a failure is not remembered
    assert!(matches!(manager.load_image("x.missing"), Err(Error::IO(_))));
    assert!(matches!(manager.load_image("x.missing"), Err(Error::IO(_))));
    assert_eq!(calls.get(), 4);

    // another base path is another image
    manager.set_base_path("elsewhere".into());
    let moved = manager.load_image("a.png").unwrap();
    assert_eq!(calls.get(), 5);
    assert_ne!(moved, first);
}

#[test]
fn two_tile_sets_share_one_image() {
    let calls = Rc::new(Cell::new(0));
    let mut manager = ResourceManager::new(Counting { calls: calls.clone() }, Files::none());
    let text = r#"<map version="1.5" orientation="orthogonal" width="1" height="1" tilewidth="1" tileheight="1">
        <tileset firstgid="1" name="a" tilewidth="1" tileheight="1" tilecount="1" columns="1"><image source="i.png"/></tileset>
        <tileset firstgid="2" name="b" tilewidth="1" tileheight="1" tilecount="1" columns="1"><image source="i.png"/></tileset>
    </map>"#;
    let map = TileMap::from_xml_str(text, &mut manager).unwrap();
    assert_eq!(calls.get(), 1);
    assert_eq!(map.tilesets[0].image, map.tilesets[1].image);
    // the manager outlives the map, and with it what it has loaded
    let again = TileMap::from_xml_str(text, &mut manager).unwrap();
    assert_eq!(calls.get(), 1);
    assert_eq!(again.tilesets[0].image, map.tilesets[0].image);
}

#[test]
fn templates_are_loaded_once() {
    let files = Files::with(&[
        (
            "./orc.tx",
            r#"<template><tileset firstgid="1" source="t.tsx"/>
                 <object name="orc" type="enemy" width="16" height="16">
                   <properties><property name="hp" type="int" value="10"/></properties>
                 </object>
                 <object name="second"/>
               </template>"#,
        ),
        ("./empty.tx", "<template/>"),
        ("./broken.tx", r#"<template><object x="far"/></template>"#),
    ]);
    let reads = files.reads.clone();
    let mut manager: ResourceManager<String> = ResourceManager::new(LazyLoader {}, files);

    let first = manager.load_object_template("orc.tx").unwrap();
    assert_eq!(reads.get(), 1);
    assert_eq!(first.id, 0);
    assert_eq!(first.name, "orc");
    assert_eq!(first.type_, "enemy");
    assert_eq!(first.size.x.as_str(), "16");
    assert_eq!(first.properties.get("hp"), Some(&PropertyValue::Int(10)));

    let second = manager.load_object_template("orc.tx").unwrap();
    assert_eq!(reads.get(), 1);
    assert_eq!(second.name, first.name);
    assert_eq!(second.type_, first.type_);
    assert_eq!(second.size, first.size);
    assert_eq!(second.kind, first.kind);
    assert_eq!(second.properties.get("hp"), first.properties.get("hp"));
    assert_eq!(second.properties.len(), first.properties.len());

    match manager.load_object_template("empty.tx") {
        Err(Error::StructureError { tag, msg }) => {
            assert_eq!(tag, "template");
            assert_eq!(msg, "Expected an 'object' node in template, but none was found");
        }
        other => panic!("expected a structure error, got {:?}", other.map(|o| o.id)),
    }
    assert!(matches!(manager.load_object_template("broken.tx"), Err(Error::ParseError(_))));
    assert!(matches!(manager.load_object_template("none.tx"), Err(Error::IO(_))));

    assert_eq!(template_from_text(r#"<t><object id="3"/></t>"#).unwrap().id, 3);
    assert!(matches!(template_from_text("<t"), Err(Error::ParseError(_))));
    let root = Element::parse(r#"<t><x/><object name="n"/></t>"#).unwrap();
    assert_eq!(tego::resource_manager::template_from_xml(&root).unwrap().name, "n");
}

#[test]
fn objects_are_made_of_their_templates() {
    let files = Files::with(&[
        (
            "maps/orc.tx",
            r#"<template>
                 <object name="orc" type="enemy" width="16" height="24" rotation="10">
                   <properties>
                     <property name="hp" type="int" value="10"/>
                     <property name="loot" value="gold"/>
                   </properties>
                   <ellipse/>
                 </object>
               </template>"#,
        ),
        ("maps/chest.tx", r#"<template><object name="chest" gid="5"/></template>"#),
        ("maps/empty.tx", "<template/>"),
    ]);
    let reads = files.reads.clone();
    let mut manager: ResourceManager<String> = ResourceManager::new(LazyLoader {}, files);
    manager.set_base_path("maps".into());
    let map = |objects: &str| {
        format!(
            r#"<map version="1.5" orientation="orthogonal" width="1" height="1" tilewidth="1" tileheight="1">
                 <group><objectgroup>{}</objectgroup></group>
               </map>"#,
            objects
        )
    };
    let text = map(
        r#"<object id="1" template="orc.tx" x="10" y="20"/>
           <object id="2" template="orc.tx" name="boss" x="30" y="40">
             <properties><property name="hp" type="int" value="99"/></properties>
             <point/>
           </object>
           <object id="3" template="chest.tx"/>
           <object id="4" name="plain"/>"#,
    );
    let loaded = TileMap::from_xml_str(&text, &mut manager).unwrap();
    // each template is read once
    assert_eq!(reads.get(), 2);
    let layers = loaded.iter_layers();
    let objects = match layers[1].0 {
        Layer::Object(layer) => &layer.content,
        _ => panic!("expected an object layer"),
    };
    assert_eq!(objects.len(), 4);

    assert_eq!(objects[0].id, 1);
    assert_eq!(objects[0].name, "orc");
    assert_eq!(objects[0].type_, "enemy");
    assert_eq!((objects[0].pos.x.as_str(), objects[0].pos.y.as_str()), ("10", "20"));
    assert_eq!((objects[0].size.x.as_str(), objects[0].size.y.as_str()), ("16", "24"));
    assert_eq!(objects[0].rotation.as_str(), "10");
    assert_eq!(objects[0].kind, ObjectKind::Ellipse);
    assert_eq!(objects[0].properties.get("hp"), Some(&PropertyValue::Int(10)));

    // what the object says wins over the template
    assert_eq!(objects[1].id, 2);
    assert_eq!(objects[1].name, "boss");
    assert_eq!(objects[1].type_, "enemy");
    assert_eq!(objects[1].kind, ObjectKind::Point);
    assert_eq!(objects[1].properties.get("hp"), Some(&PropertyValue::Int(99)));
    assert_eq!(objects[1].properties.get("loot"), Some(&PropertyValue::String("gold".into())));

    assert_eq!(objects[2].name, "chest");
    assert_eq!(objects[2].tile_id, GID::new(5));
    assert_eq!(objects[3].name, "plain");
    assert_eq!(objects[3].kind, ObjectKind::Rect);

    // loading the map again reads no template again
    TileMap::from_xml_str(&text, &mut manager).unwrap();
    assert_eq!(reads.get(), 2);
    assert!(manager.loaded_templates().find("orc.tx").is_some());
    assert!(manager.loaded_templates().find("empty.tx").is_none());

    assert!(matches!(
        TileMap::from_xml_str(&map(r#"<object id="1" template="none.tx"/>"#), &mut manager),
        Err(Error::IO(_))
    ));
    assert!(matches!(
        TileMap::from_xml_str(&map(r#"<object id="1" template="empty.tx"/>"#), &mut manager),
        Err(Error::StructureError { .. })
    ));
    assert!(matches!(
        TileMap::from_xml_str(&map(r#"<object id="x" template="orc.tx"/>"#), &mut manager),
        Err(Error::ParseError(_))
    ));
}

fn default_map() -> String {
    format!(
        r#"<?xml version="1.0" encoding="UTF-8"?>
<map version="1.5" tiledversion="1.7.2" orientation="orthogonal" renderorder="right-down" width="16" height="16" tilewidth="16" tileheight="16" infinite="0" nextlayerid="2" nextobjectid="1">
 <tileset firstgid="1" name="tiles" tilewidth="16" tileheight="16" tilecount="49" columns="7">
  <image source="tiles.png" width="112" height="112"/>
 </tileset>
 <layer id="1" name="Tile Layer 1" width="16" height="16">
  <data encoding="base64" compression="zlib">
   {}
  </data>
 </layer>
</map>"#,
        "eNpjYGBgYAdiPiAWBWIZIGZmYGjQYoAAdDllIB6VG5UblRsecgA3FRU3"
    )
}

#[test]
fn load_default_example_map() {
    let mut manager = lazy();
    let map = TileMap::from_xml_str(&default_map(), &mut manager).unwrap();

    assert_eq!(map.version, Version(1, 5, None));
    assert_eq!(map.editor_version, Some(Version(1, 7, Some(2))));
    assert_eq!(map.layers.len(), 1);

    assert_eq!(map.tilesets.len(), 1);
    assert!(matches!(
        &map.tilesets[0].image,
        ImageStorage::SpriteSheet(handle) if manager.image(*handle).unwrap() == "./tiles.png"
    ));

    if let Layer::Tile(layer) = &map.layers[0] {
        assert_eq!(layer.size, ivec2::new(16, 16));
        let mut cells = layer.tiles_in_renderorder(&map).unwrap();
        while let Some((pos, gid)) = cells.next() {
            if gid.is_none() {
                continue;
            }
            let item = map.tile_image(gid.unwrap());
            // We must be able to resolve all GIDs that we find in a valid map
            assert!(item.is_some());

            let (img, src) = item.unwrap();
            println!("Tile {:?} uses pixels {:?} in {:?}", pos, src, img);
        }
    } else {
        panic!("expected a tile layer");
    }
}

#[test]
fn load_group_example_map() {
    let text = r#"<map version="1.5" tiledversion="1.7.2" orientation="orthogonal" renderorder="right-down" width="1" height="1" tilewidth="16" tileheight="16">
 <layer id="1" name="Ground" width="1" height="1">
  <data encoding="base64">AAAAAA==</data>
 </layer>
 <group id="2" name="Objects">
  <layer id="3" name="Trees" width="1" height="1">
   <data encoding="base64">AAAAAA==</data>
  </layer>
  <layer id="4" name="Houses" width="1" height="1">
   <data encoding="base64">AAAAAA==</data>
  </layer>
  <group id="5" name="Small">
   <layer id="6" name="Flowers" width="1" height="1">
    <data encoding="base64">AAAAAA==</data>
   </layer>
  </group>
 </group>
</map>"#;
    let map = TileMap::from_xml_str(text, &mut lazy()).unwrap();

    assert_eq!(map.layers.len(), 2);
    assert!(matches!(map.layers[0], Layer::Tile(_)));
    assert!(matches!(map.layers[1], Layer::Group(_)));

    if let Layer::Group(ref g) = map.layers[1] {
        assert_eq!(g.name, "Objects");
        assert_eq!(g.content.len(), 3);
    }
}

#[test]
fn load_object_example_map() {
    let text = r#"<map version="1.5" tiledversion="1.7.2" orientation="orthogonal" renderorder="right-down" width="1" height="1" tilewidth="16" tileheight="16">
 <objectgroup id="1" name="Shapes">
  <object id="1" x="16" y="16" width="32" height="32"><ellipse/></object>
  <object id="2" x="64" y="64"><polygon points="0,0 32,0 32,32 0,32"/></object>
  <object id="3" x="0" y="96" width="80" height="20"><text wrap="1">Hello World</text></object>
 </objectgroup>
 <group id="2" name="More">
  <objectgroup id="3" name="Marks">
   <object id="4" x="8" y="8" width="16" height="16"/>
   <object id="5" x="40" y="40"><point/></object>
  </objectgroup>
 </group>
</map>"#;
    let map = TileMap::from_xml_str(text, &mut lazy()).unwrap();

    assert_eq!(map.layers.len(), 2);

    let layers = map.iter_layers();
    let object_layers: Vec<_> = layers
        .iter()
        .filter_map(|(l, _)| match l {
            Layer::Object(x) => Some(x),
            _ => None,
        })
        .collect();

    assert_eq!(object_layers.len(), 2);

    let objects = &object_layers[0].content;
    assert_eq!(objects.len(), 3);
    assert!(matches!(&objects[0].kind, ObjectKind::Ellipse));
    assert!(matches!(&objects[1].kind, ObjectKind::Polygon { .. }));

    if let ObjectKind::Text { content, .. } = &objects[2].kind {
        assert_eq!(content, "Hello World");
    } else {
        panic!("Expected object to be a text object");
    }

    let objects = &object_layers[1].content;
    assert_eq!(objects.len(), 2);
    assert!(matches!(&objects[0].kind, ObjectKind::Rect));
    assert!(matches!(&objects[1].kind, ObjectKind::Point));
}

#[test]
fn what_a_provider_read_becomes_text() {
    assert_eq!(text_from_read(Ok(b"caf\xC3\xA9".to_vec())).unwrap(), "caf\u{e9}");
    assert_eq!(text_from_read(Ok(vec![])).unwrap(), "");
    assert!(matches!(text_from_read(Ok(vec![0xC3])), Err(Error::ParseError(_))));
    // the failure of the provider is handed on as it is
    assert_eq!(
        text_from_read(Err(Error::IO("no such file".into()))),
        Err(Error::IO("no such file".into()))
    );
    assert_eq!(
        text_from_read(Err(Error::UnsupportedFeature("network".into()))),
        Err(Error::UnsupportedFeature("network".into()))
    );
}
