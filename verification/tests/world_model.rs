//! Layer building, region iteration, autotile stitching, and end-to-end
//! world assembly.

use ldtk_model::definitions::{
    Error, RsDefinitions, RsLayerDefinition, TypedLiteral,
};
use ldtk_model::schema::DynValue;
use ldtk_model::header::{Color, FlipMode, RectangularRegion, Tile, Vec2};
use ldtk_model::level::{entities, generate_levels, int_grid, tiles};
use ldtk_model::schema::{
    AutoLayerRuleGroup, Definitions, EntityDefinition, EntityInstance, EnumDefinition,
    EnumValueDefinition, FieldDefinition, FieldInstance, IntGridValueDefinition, LayerDefinition,
    LayerInstance, LdtkJson, Level, RenderMode, TileInstance, TilesetDefinition, TilesetRectangle,
    Type,
};
use ldtk_model::typedefs::generate_defs;
use ldtk_model::world::{EntitiesLayer, IntGridLayer, LayerData, TilesLayer, World};

fn empty_layer_instance(identifier: &str) -> LayerInstance {
    LayerInstance {
        identifier: identifier.to_string(),
        c_wid: 0,
        c_hei: 0,
        int_grid_csv: vec![],
        grid_tiles: vec![],
        auto_layer_tiles: vec![],
        entity_instances: vec![],
        tileset_def_uid: None,
    }
}

fn int_grid_layer_2x2() -> IntGridLayer {
    IntGridLayer {
        identifier: "Ground".to_string(),
        size: Vec2 { x: 2, y: 2 },
        tiles: vec![
            "Empty".to_string(),
            "Wall".to_string(),
            "Wall".to_string(),
            "Empty".to_string(),
        ],
        auto_tiles: None,
        tileset: None,
    }
}

#[test]
fn region_clamps_start_and_visits_row_major() {
    let mut region = RectangularRegion::new(Vec2::new(-5, -5), Vec2::new(3, 3));
    let mut seen = Vec::new();
    while let Some(p) = region.next() {
        seen.push((p.x, p.y));
    }
    assert_eq!(
        seen,
        vec![(0, 0), (1, 0), (2, 0), (0, 1), (1, 1), (2, 1), (0, 2), (1, 2), (2, 2)]
    );
}

#[test]
fn region_of_zero_width_is_empty() {
    let mut region = RectangularRegion::new(Vec2::new(2, 2), Vec2::new(0, 5));
    assert!(region.next().is_none());
}

#[test]
fn grid_get_is_empty_out_of_bounds() {
    let layer = int_grid_layer_2x2();
    assert!(layer.get(Vec2::new(-1, 0)).is_none());
    assert!(layer.get(Vec2::new(0, -1)).is_none());
    assert!(layer.get(Vec2::new(2, 0)).is_none());
    assert!(layer.get(Vec2::new(0, 2)).is_none());
    assert!(layer.get(Vec2::new(5, 5)).is_none());
    assert_eq!(layer.get(Vec2::new(1, 0)).unwrap(), "Wall");
    assert_eq!(layer.get(Vec2::new(0, 1)).unwrap(), "Wall");
    assert_eq!(layer.get(Vec2::new(0, 0)).unwrap(), "Empty");
}

#[test]
fn grid_get_mut_is_empty_out_of_bounds_and_writes_cells() {
    let mut layer = int_grid_layer_2x2();
    assert!(layer.get_mut(Vec2::new(-3, 1)).is_none());
    assert!(layer.get_mut(Vec2::new(1, 7)).is_none());
    *layer.get_mut(Vec2::new(1, 1)).unwrap() = "Wall".to_string();
    assert_eq!(layer.get(Vec2::new(1, 1)).unwrap(), "Wall");
}

#[test]
fn tiles_get_is_empty_out_of_bounds() {
    let layer = TilesLayer {
        identifier: "Deco".to_string(),
        size: Vec2 { x: 1, y: 1 },
        tiles: vec![Some(Tile::new(Vec2::new(0, 0), FlipMode::NoFlip))],
        tileset: 1,
    };
    assert!(layer.get(Vec2::new(-1, 0)).is_none());
    assert!(layer.get(Vec2::new(1, 0)).is_none());
    assert!(layer.get(Vec2::new(0, 0)).is_some());
}

#[test]
fn grid_rect_yields_pairs_with_absent_values_outside() {
    let layer = int_grid_layer_2x2();
    let mut region = layer.rect(Vec2::new(-5, -5), Vec2::new(3, 3));
    let mut count = 0;
    let mut first: Option<(i64, i64)> = None;
    let mut absent = 0;
    while let Some((p, v)) = region.next() {
        if first.is_none() {
            first = Some((p.x, p.y));
        }
        if v.is_none() {
            absent += 1;
        }
        count += 1;
    }
    assert_eq!(count, 9);
    assert_eq!(first, Some((0, 0)));
    // cells (2,_),(_,2) lie outside the 2x2 layer
    assert_eq!(absent, 5);
}

#[test]
fn autotile_bucket_lengths_sum_to_stamp_count() {
    let mut defs = RsDefinitions::new();
    defs.tilesets.push((
        9,
        ldtk_model::definitions::RsTilesetDefinition { tile_size: 16 },
    ));
    let definition = ldtk_model::definitions::RsIntGridDefinition {
        grid_size: 16,
        tile_enum: "GroundTile".to_string(),
        tile_variants: vec![(1, "Wall".to_string()), (0, "Empty".to_string())],
        auto_layer: Some(ldtk_model::definitions::RsAutoLayerDefinition {}),
    };
    let stamp = |px: (i64, i64), src: (i64, i64), f: i64| TileInstance {
        px: Vec2 { x: px.0, y: px.1 },
        src: Vec2 { x: src.0, y: src.1 },
        f,
    };
    let inst = LayerInstance {
        identifier: "Ground".to_string(),
        c_wid: 2,
        c_hei: 2,
        int_grid_csv: vec![0, 0, 0, 0],
        grid_tiles: vec![],
        auto_layer_tiles: vec![
            stamp((17, 5), (0, 0), 0),
            stamp((0, 0), (16, 0), 1),
            stamp((17, 6), (32, 0), 2),
            stamp((1, 17), (0, 16), 3),
        ],
        entity_instances: vec![],
        tileset_def_uid: Some(9),
    };
    let layer = int_grid::layer_instance(&definition, &defs, &inst).unwrap();
    let buckets = layer.auto_tiles.as_ref().unwrap();
    let total: usize = buckets.iter().map(|b| b.len()).sum();
    assert_eq!(total, 4);
    // the stamp at pixel (17,5) lands in bucket (17/16, 5/16) == (1,0)
    let at_1_0 = &buckets[1];
    assert_eq!(at_1_0.len(), 2);
    assert_eq!(at_1_0[0].position(), Vec2 { x: 0, y: 0 });
    assert!(!at_1_0[0].flip().horizontal());
    assert_eq!(at_1_0[1].position(), Vec2 { x: 2, y: 0 });
    assert!(at_1_0[1].flip().vertical());
    // order within a bucket follows input order
    let autotiles = layer.get_autotile(Vec2::new(1, 0));
    assert_eq!(autotiles.len(), 2);
    assert!(layer.get_autotile(Vec2::new(9, 9)).is_empty());
}

#[test]
fn autotile_bad_flip_code_is_invalid_encoding() {
    let mut defs = RsDefinitions::new();
    defs.tilesets.push((
        9,
        ldtk_model::definitions::RsTilesetDefinition { tile_size: 16 },
    ));
    let definition = ldtk_model::definitions::RsIntGridDefinition {
        grid_size: 16,
        tile_enum: "GroundTile".to_string(),
        tile_variants: vec![(0, "Empty".to_string())],
        auto_layer: Some(ldtk_model::definitions::RsAutoLayerDefinition {}),
    };
    let inst = LayerInstance {
        identifier: "Ground".to_string(),
        c_wid: 1,
        c_hei: 1,
        int_grid_csv: vec![0],
        grid_tiles: vec![],
        auto_layer_tiles: vec![TileInstance {
            px: Vec2 { x: 0, y: 0 },
            src: Vec2 { x: 0, y: 0 },
            f: 7,
        }],
        entity_instances: vec![],
        tileset_def_uid: Some(9),
    };
    assert!(matches!(
        int_grid::layer_instance(&definition, &defs, &inst),
        Err(Error::InvalidEncoding(_))
    ));
}

#[test]
fn int_grid_unknown_cell_value_is_missing_definition() {
    let defs = RsDefinitions::new();
    let definition = ldtk_model::definitions::RsIntGridDefinition {
        grid_size: 16,
        tile_enum: "GroundTile".to_string(),
        tile_variants: vec![(0, "Empty".to_string())],
        auto_layer: None,
    };
    let mut inst = empty_layer_instance("Ground");
    inst.c_wid = 1;
    inst.c_hei = 1;
    inst.int_grid_csv = vec![3];
    assert!(matches!(
        int_grid::layer_instance(&definition, &defs, &inst),
        Err(Error::MissingDefinition(_))
    ));
}

#[test]
fn tile_layer_last_write_wins() {
    let mut defs = RsDefinitions::new();
    defs.tilesets.push((
        5,
        ldtk_model::definitions::RsTilesetDefinition { tile_size: 8 },
    ));
    let definition = ldtk_model::definitions::RsTilesDefinition { grid_size: 8 };
    let inst = LayerInstance {
        identifier: "Deco".to_string(),
        c_wid: 2,
        c_hei: 1,
        int_grid_csv: vec![],
        grid_tiles: vec![
            TileInstance { px: Vec2 { x: 0, y: 0 }, src: Vec2 { x: 0, y: 0 }, f: 0 },
            TileInstance { px: Vec2 { x: 1, y: 0 }, src: Vec2 { x: 24, y: 8 }, f: 1 },
        ],
        auto_layer_tiles: vec![],
        entity_instances: vec![],
        tileset_def_uid: Some(5),
    };
    let layer = tiles::layer_instance(&definition, &defs, &inst).unwrap();
    // both placed tiles target cell (0,0); the later one wins
    let t = layer.get(Vec2::new(0, 0)).unwrap();
    assert_eq!(t.position(), Vec2 { x: 3, y: 1 });
    assert!(t.flip().horizontal());
    assert!(layer.get(Vec2::new(1, 0)).is_none());
}

#[test]
fn tile_layer_stamp_outside_layer_is_validation() {
    let mut defs = RsDefinitions::new();
    defs.tilesets.push((
        5,
        ldtk_model::definitions::RsTilesetDefinition { tile_size: 8 },
    ));
    let definition = ldtk_model::definitions::RsTilesDefinition { grid_size: 8 };
    let mut inst = empty_layer_instance("Deco");
    inst.c_wid = 1;
    inst.c_hei = 1;
    inst.tileset_def_uid = Some(5);
    inst.grid_tiles = vec![TileInstance {
        px: Vec2 { x: 64, y: 0 },
        src: Vec2 { x: 0, y: 0 },
        f: 0,
    }];
    assert!(matches!(
        tiles::layer_instance(&definition, &defs, &inst),
        Err(Error::ValidationError(_))
    ));
}

fn ground_layer_definition() -> LayerDefinition {
    LayerDefinition {
        identifier: "Ground".to_string(),
        purple_type: Type::IntGrid,
        grid_size: 16,
        int_grid_values: vec![IntGridValueDefinition { value: 1, identifier: Some("Wall".to_string()) }],
        auto_rule_groups: vec![],
        tileset_def_uid: None,
    }
}

fn actors_layer_definition() -> LayerDefinition {
    LayerDefinition {
        identifier: "Actors".to_string(),
        purple_type: Type::Entities,
        grid_size: 16,
        int_grid_values: vec![],
        auto_rule_groups: vec![],
        tileset_def_uid: None,
    }
}

fn thing_entity_definition() -> EntityDefinition {
    EntityDefinition {
        identifier: "Thing".to_string(),
        field_defs: vec![
            FieldDefinition {
                identifier: "hp".to_string(),
                field_definition_type: "Int".to_string(),
                can_be_null: true,
            },
            FieldDefinition {
                identifier: "target".to_string(),
                field_definition_type: "EntityRef".to_string(),
                can_be_null: true,
            },
        ],
        render_mode: RenderMode::Rectangle,
        tile_rect: None,
        tileset_id: None,
    }
}

fn thing_instance(iid: &str, fields: Vec<FieldInstance>) -> EntityInstance {
    EntityInstance {
        identifier: "Thing".to_string(),
        iid: iid.to_string(),
        field_instances: fields,
        px: Vec2 { x: 24, y: 8 },
        width: 16,
        height: 16,
    }
}

fn small_project(entity_instances: Vec<EntityInstance>) -> LdtkJson {
    LdtkJson {
        defs: Definitions {
            tilesets: vec![TilesetDefinition {
                uid: 1,
                identifier: "Atlas".to_string(),
                rel_path: Some("atlas.png".to_string()),
                tile_grid_size: 16,
            }],
            enums: vec![],
            entities: vec![thing_entity_definition()],
            layers: vec![ground_layer_definition(), actors_layer_definition()],
            level_fields: vec![],
        },
        levels: vec![Level {
            identifier: "Hub".to_string(),
            bg_color: "#101820".to_string(),
            px_wid: 32,
            px_hei: 32,
            world_depth: 0,
            world_x: 0,
            world_y: 0,
            layer_instances: Some(vec![
                LayerInstance {
                    identifier: "Ground".to_string(),
                    c_wid: 2,
                    c_hei: 2,
                    int_grid_csv: vec![0, 1, 1, 0],
                    grid_tiles: vec![],
                    auto_layer_tiles: vec![],
                    entity_instances: vec![],
                    tileset_def_uid: None,
                },
                LayerInstance {
                    identifier: "Actors".to_string(),
                    c_wid: 2,
                    c_hei: 2,
                    int_grid_csv: vec![],
                    grid_tiles: vec![],
                    auto_layer_tiles: vec![],
                    entity_instances,
                    tileset_def_uid: None,
                },
            ]),
            field_instances: vec![],
        }],
        bg_color: "#ffffff".to_string(),
    }
}

#[test]
fn end_to_end_compiles_grid_and_optional_field() {
    let project = small_project(vec![thing_instance(
        "iid-a",
        vec![FieldInstance { identifier: "hp".to_string(), value: Some(DynValue::Null) }],
    )]);
    let mut defs = RsDefinitions::new();
    generate_defs(&mut defs, &project).unwrap();
    let world = generate_levels(&mut defs, &project).unwrap();

    assert_eq!(world.bg_color, Color { r: 0xff, g: 0xff, b: 0xff, a: 255 });
    assert_eq!(world.tilesets.len(), 1);
    assert_eq!(world.tilesets[0].id(), 1);
    assert_eq!(world.tilesets[0].path(), "atlas.png");

    let level = world.get(0).unwrap();
    assert_eq!(level.identifier, "Hub");
    assert_eq!(level.pixel_size, Vec2 { x: 32, y: 32 });
    assert!(world.get(1).is_none());
    assert!(world.level("Hub").is_some());
    assert!(world.level("Nowhere").is_none());

    let ground = match level.layer("Ground").unwrap() {
        LayerData::IntGrid(l) => l,
        other => panic!("unexpected layer: {:?}", other),
    };
    assert_eq!(ground.get(Vec2::new(1, 0)).unwrap(), "Wall");
    assert_eq!(ground.get(Vec2::new(0, 0)).unwrap(), "Empty");
    assert!(ground.get(Vec2::new(5, 5)).is_none());

    let actors = match level.layer("Actors").unwrap() {
        LayerData::Entities(l) => l,
        other => panic!("unexpected layer: {:?}", other),
    };
    assert_eq!(actors.entities.len(), 1);
    let thing = &actors.entities[0];
    assert_eq!(thing.entity.identifier, "Thing");
    assert_eq!(thing.position, Vec2 { x: 24, y: 8 });
    assert_eq!(thing.size, Vec2 { x: 16, y: 16 });
    assert_eq!(thing.entity.fields.len(), 1);
    assert_eq!(thing.entity.fields[0].0, "hp");
    assert_eq!(thing.entity.fields[0].1, TypedLiteral::Empty);
}

#[test]
fn entity_reference_round_trip_finds_target() {
    let a = thing_instance(
        "iid-a",
        vec![FieldInstance {
            identifier: "target".to_string(),
            value: Some(DynValue::Object(vec![(
                "entityIid".to_string(),
                DynValue::Str("iid-b".to_string()),
            )])),
        }],
    );
    let b = thing_instance("iid-b", vec![]);
    let project = small_project(vec![a, b]);
    let mut defs = RsDefinitions::new();
    generate_defs(&mut defs, &project).unwrap();
    let world = generate_levels(&mut defs, &project).unwrap();

    let level = world.get(0).unwrap();
    let actors = match &level.layers[1] {
        LayerData::Entities(l) => l,
        other => panic!("unexpected layer: {:?}", other),
    };
    let reference = match &actors.entities[0].entity.fields[0].1 {
        TypedLiteral::Present(inner) => match inner.as_ref() {
            TypedLiteral::EntityRef(r) => *r,
            other => panic!("unexpected literal: {:?}", other),
        },
        other => panic!("unexpected literal: {:?}", other),
    };
    assert_eq!((reference.level, reference.layer, reference.entity), (0, 1, 1));
    let found = reference.find(&world).unwrap();
    assert_eq!(found.entity.identifier, "Thing");
    assert_eq!(found.position, actors.entities[1].position);
}

#[test]
fn entity_reference_to_unknown_identifier_aborts_compilation() {
    let a = thing_instance(
        "iid-a",
        vec![FieldInstance {
            identifier: "target".to_string(),
            value: Some(DynValue::Object(vec![(
                "entityIid".to_string(),
                DynValue::Str("iid-ghost".to_string()),
            )])),
        }],
    );
    let project = small_project(vec![a]);
    let mut defs = RsDefinitions::new();
    generate_defs(&mut defs, &project).unwrap();
    assert!(matches!(
        generate_levels(&mut defs, &project),
        Err(Error::MissingDefinition(_))
    ));
}

#[test]
fn standalone_auto_layer_is_explicitly_unsupported() {
    let mut project = small_project(vec![]);
    project.defs.layers.push(LayerDefinition {
        identifier: "Derived".to_string(),
        purple_type: Type::AutoLayer,
        grid_size: 16,
        int_grid_values: vec![],
        auto_rule_groups: vec![AutoLayerRuleGroup {}],
        tileset_def_uid: Some(1),
    });
    let mut defs = RsDefinitions::new();
    generate_defs(&mut defs, &project).unwrap();
    assert!(matches!(
        generate_levels(&mut defs, &project),
        Err(Error::UnsupportedFieldType(_))
    ));
}

#[test]
fn world_get_mut_rewrites_level() {
    let project = small_project(vec![]);
    let mut defs = RsDefinitions::new();
    generate_defs(&mut defs, &project).unwrap();
    let mut world = generate_levels(&mut defs, &project).unwrap();
    assert!(world.get_mut(3).is_none());
    world.get_mut(0).unwrap().world_depth = 5;
    assert_eq!(world.get(0).unwrap().world_depth, 5);
}

#[test]
fn layer_definitions_fill_registry() {
    let mut defs = RsDefinitions::new();
    let mut ground = ground_layer_definition();
    ground.int_grid_values.push(IntGridValueDefinition { value: 7, identifier: None });
    int_grid::layer_definition(&mut defs, &ground).unwrap();
    tiles::layer_definition(
        &mut defs,
        &LayerDefinition {
            identifier: "Deco".to_string(),
            purple_type: Type::Tiles,
            grid_size: 8,
            int_grid_values: vec![],
            auto_rule_groups: vec![],
            tileset_def_uid: Some(5),
        },
    )
    .unwrap();
    entities::layer_definition(&mut defs, &actors_layer_definition());
    assert_eq!(defs.layers.len(), 3);
    match &defs.layers[0].1 {
        RsLayerDefinition::IntGrid(d) => {
            assert_eq!(d.grid_size, 16);
            assert_eq!(d.tile_enum, "GroundTile");
            // declared values in order, then the reserved Empty entry
            assert_eq!(d.tile_variants[0], (1, "Wall".to_string()));
            assert_eq!(d.tile_variants[1], (7, "Tile1".to_string()));
            assert_eq!(d.tile_variants[2], (0, "Empty".to_string()));
            assert!(d.auto_layer.is_none());
        },
        other => panic!("unexpected: {:?}", other),
    }
    assert!(matches!(&defs.layers[1].1, RsLayerDefinition::Tiles(d) if d.grid_size == 8));
    assert!(matches!(&defs.layers[2].1, RsLayerDefinition::Entities));
}

#[test]
fn generate_defs_builds_enum_models() {
    let project = LdtkJson {
        defs: Definitions {
            tilesets: vec![TilesetDefinition {
                uid: 3,
                identifier: "Icons".to_string(),
                rel_path: None,
                tile_grid_size: 8,
            }],
            enums: vec![EnumDefinition {
                identifier: "ItemKind".to_string(),
                values: vec![
                    EnumValueDefinition {
                        id: "Sword".to_string(),
                        color: 0x11223344,
                        tile_rect: Some(TilesetRectangle { x: 16, y: 8, w: 8, h: 8 }),
                    },
                    EnumValueDefinition { id: "Shield".to_string(), color: -1, tile_rect: None },
                ],
                icon_tileset_uid: Some(3),
            }],
            entities: vec![],
            layers: vec![],
            level_fields: vec![],
        },
        levels: vec![],
        bg_color: "#000000".to_string(),
    };
    let mut defs = RsDefinitions::new();
    let models = generate_defs(&mut defs, &project).unwrap();
    assert_eq!(defs.tilesets.len(), 1);
    assert_eq!(defs.tilesets[0].0, 3);
    assert_eq!(defs.tilesets[0].1.tile_size, 8);
    assert_eq!(models.len(), 1);
    let model = &models[0];
    assert_eq!(model.identifier, "ItemKind");
    assert_eq!(model.icon_tileset, Some(3));
    assert_eq!(model.variants.len(), 2);
    assert_eq!(model.variants[0].id, "Sword");
    assert_eq!(
        model.variants[0].color,
        Some(Color { r: 0x11, g: 0x22, b: 0x33, a: 0x44 })
    );
    assert_eq!(model.variants[0].icon, Some(Vec2 { x: 2, y: 1 }));
    assert_eq!(model.variants[1].color, None);
    assert_eq!(model.variants[1].icon, None);
}

#[test]
fn entity_definitions_compile_fields_and_render_modes() {
    let project = LdtkJson {
        defs: Definitions {
            tilesets: vec![TilesetDefinition {
                uid: 2,
                identifier: "Sprites".to_string(),
                rel_path: None,
                tile_grid_size: 16,
            }],
            enums: vec![],
            entities: vec![EntityDefinition {
                identifier: "Chest".to_string(),
                field_defs: vec![FieldDefinition {
                    identifier: "loot".to_string(),
                    field_definition_type: "Array<LocalEnum.ItemKind>".to_string(),
                    can_be_null: false,
                }],
                render_mode: RenderMode::Tile,
                tile_rect: Some(TilesetRectangle { x: 32, y: 16, w: 16, h: 32 }),
                tileset_id: Some(2),
            }],
            layers: vec![],
            level_fields: vec![],
        },
        levels: vec![],
        bg_color: "#000000".to_string(),
    };
    let mut defs = RsDefinitions::new();
    generate_defs(&mut defs, &project).unwrap();
    entities::definitions(&mut defs, &project).unwrap();
    assert_eq!(defs.entities.len(), 1);
    assert_eq!(defs.entities[0].0, "Chest");
    let chest = &defs.entities[0].1;
    assert_eq!(chest.fields.len(), 1);
    assert_eq!(chest.fields[0].0, "loot");
    assert_eq!(
        chest.render_mode,
        ldtk_model::header::RenderMode::Tile {
            tileset: 2,
            tile: Vec2 { x: 2, y: 1 },
            size: Vec2 { x: 1, y: 2 },
        }
    );
}

#[test]
fn generate_world_requires_layer_instances() {
    let mut project = small_project(vec![]);
    project.levels[0].layer_instances = None;
    let mut defs = RsDefinitions::new();
    generate_defs(&mut defs, &project).unwrap();
    assert!(matches!(
        generate_levels(&mut defs, &project),
        Err(Error::UnsupportedFieldType(_))
    ));
}

#[test]
fn generate_world_rejects_dangling_layer_instance() {
    let mut project = small_project(vec![]);
    project.levels[0]
        .layer_instances
        .as_mut()
        .unwrap()
        .push(empty_layer_instance("Phantom"));
    let mut defs = RsDefinitions::new();
    generate_defs(&mut defs, &project).unwrap();
    assert!(matches!(
        generate_levels(&mut defs, &project),
        Err(Error::MissingDefinition(_))
    ));
}

#[test]
fn entities_layer_holds_placements_in_order() {
    let project = small_project(vec![thing_instance("one", vec![]), thing_instance("two", vec![])]);
    let mut defs = RsDefinitions::new();
    generate_defs(&mut defs, &project).unwrap();
    let world: World = generate_levels(&mut defs, &project).unwrap();
    let actors: &EntitiesLayer = match &world.levels[0].layers[1] {
        LayerData::Entities(l) => l,
        other => panic!("unexpected layer: {:?}", other),
    };
    assert_eq!(actors.entities.len(), 2);
    assert_eq!(actors.identifier, "Actors");
    // the index assigned each instance its position in declaration order
    assert_eq!(defs.entity_instances.len(), 2);
    assert_eq!(defs.entity_instances[0].0, "one");
    assert_eq!(defs.entity_instances[0].1,
        ldtk_model::definitions::RsEntityInstance { level: 0, layer: 1, entity: 0 });
    assert_eq!(defs.entity_instances[1].1,
        ldtk_model::definitions::RsEntityInstance { level: 0, layer: 1, entity: 1 });
}

#[test]
fn entity_find_mut_rewrites_target_in_place() {
    let project = small_project(vec![thing_instance("solo", vec![])]);
    let mut defs = RsDefinitions::new();
    generate_defs(&mut defs, &project).unwrap();
    let mut world = generate_levels(&mut defs, &project).unwrap();
    let reference = ldtk_model::header::EntityRef::new(0, 1, 0);
    {
        let target = reference.find_mut(&mut world).unwrap();
        target.position = Vec2 { x: 99, y: 1 };
    }
    assert_eq!(reference.find(&world).unwrap().position, Vec2 { x: 99, y: 1 });
    let dangling = ldtk_model::header::EntityRef::new(0, 0, 0);
    assert!(dangling.find(&world).is_none());
    assert!(dangling.find_mut(&mut world).is_none());
}

#[test]
fn autotile_rect_visits_buckets_row_major() {
    let layer = IntGridLayer {
        identifier: "Ground".to_string(),
        size: Vec2 { x: 2, y: 1 },
        tiles: vec!["Empty".to_string(), "Empty".to_string()],
        auto_tiles: Some(vec![
            vec![],
            vec![Tile::new(Vec2::new(3, 0), FlipMode::NoFlip)],
        ]),
        tileset: Some(1),
    };
    let mut region = layer.autotile_rect(Vec2::new(0, 0), Vec2::new(3, 1));
    let (p0, v0) = region.next().unwrap();
    assert_eq!((p0.x, p0.y), (0, 0));
    assert!(v0.is_empty());
    let (p1, v1) = region.next().unwrap();
    assert_eq!((p1.x, p1.y), (1, 0));
    assert_eq!(v1.len(), 1);
    assert_eq!(v1[0].position(), Vec2 { x: 3, y: 0 });
    let (p2, v2) = region.next().unwrap();
    assert_eq!((p2.x, p2.y), (2, 0));
    assert!(v2.is_empty());
    assert!(region.next().is_none());
}

#[test]
fn rect_is_restartable_and_does_not_mutate_the_layer() {
    let layer = int_grid_layer_2x2();
    let mut first_pass = layer.rect(Vec2::new(0, 0), Vec2::new(2, 2));
    let mut first_count = 0;
    while first_pass.next().is_some() {
        first_count += 1;
    }
    let mut second_pass = layer.rect(Vec2::new(0, 0), Vec2::new(2, 2));
    let mut second_count = 0;
    while second_pass.next().is_some() {
        second_count += 1;
    }
    assert_eq!(first_count, 4);
    assert_eq!(second_count, 4);
    assert_eq!(layer.get(Vec2::new(1, 0)).unwrap(), "Wall");
}

#[test]
fn reserved_empty_entry_wins_over_a_declared_zero_value() {
    let mut defs = RsDefinitions::new();
    let mut declaration = ground_layer_definition();
    declaration
        .int_grid_values
        .push(IntGridValueDefinition { value: 0, identifier: Some("Void".to_string()) });
    int_grid::layer_definition(&mut defs, &declaration).unwrap();
    let definition = match &defs.layers[0].1 {
        RsLayerDefinition::IntGrid(d) => d,
        other => panic!("unexpected: {:?}", other),
    };
    let mut inst = empty_layer_instance("Ground");
    inst.c_wid = 1;
    inst.c_hei = 1;
    inst.int_grid_csv = vec![0];
    let layer = int_grid::layer_instance(definition, &defs, &inst).unwrap();
    assert_eq!(layer.get(Vec2::new(0, 0)).unwrap(), "Empty");
}

#[test]
fn unparsable_level_field_aborts_compilation() {
    let mut project = small_project(vec![]);
    project.defs.level_fields.push(FieldDefinition {
        identifier: "weather".to_string(),
        field_definition_type: "ExternEnum.Weather".to_string(),
        can_be_null: false,
    });
    let mut defs = RsDefinitions::new();
    generate_defs(&mut defs, &project).unwrap();
    assert!(matches!(
        generate_levels(&mut defs, &project),
        Err(Error::UnsupportedFieldType(_))
    ));
}

#[test]
fn level_fields_are_coerced_against_their_declared_types() {
    let mut project = small_project(vec![]);
    project.defs.level_fields.push(FieldDefinition {
        identifier: "title".to_string(),
        field_definition_type: "String".to_string(),
        can_be_null: false,
    });
    project.levels[0].field_instances.push(FieldInstance {
        identifier: "title".to_string(),
        value: Some(DynValue::Str("The Hub".to_string())),
    });
    let mut defs = RsDefinitions::new();
    generate_defs(&mut defs, &project).unwrap();
    let world = generate_levels(&mut defs, &project).unwrap();
    let level = world.get(0).unwrap();
    assert_eq!(level.fields.len(), 1);
    assert_eq!(level.fields[0].0, "title");
    assert_eq!(level.fields[0].1, TypedLiteral::Str("The Hub".to_string()));
    assert_eq!(level.bg_color, Color { r: 0x10, g: 0x18, b: 0x20, a: 255 });
}

#[test]
fn tiles_rect_visits_cells_with_their_tiles() {
    let layer = TilesLayer {
        identifier: "Deco".to_string(),
        size: Vec2 { x: 2, y: 1 },
        tiles: vec![None, Some(Tile::new(Vec2::new(4, 2), FlipMode::Both))],
        tileset: 3,
    };
    let mut region = layer.rect(Vec2::new(0, 0), Vec2::new(2, 1));
    let (p0, v0) = region.next().unwrap();
    assert_eq!((p0.x, p0.y), (0, 0));
    assert!(v0.is_none());
    let (p1, v1) = region.next().unwrap();
    assert_eq!((p1.x, p1.y), (1, 0));
    assert_eq!(v1.unwrap().position(), Vec2 { x: 4, y: 2 });
    assert!(region.next().is_none());
}
