use inventory_grid::catalog::{DirectoryScan, LoadAttempt, TextureState};
use inventory_grid::grid::DrawCmd;
use inventory_grid::inventory::{Inventory, Item};

#[test]
fn slot_rows_follow_row_major_order() {
    for s in 0..9 {
        assert_eq!(inventory_grid::grid::slot_row(s), 0);
    }
    for s in 9..18 {
        assert_eq!(inventory_grid::grid::slot_row(s), 1);
    }
    for s in 18..27 {
        assert_eq!(inventory_grid::grid::slot_row(s), 2);
    }
    assert_eq!(inventory_grid::grid::slot_row(35), 3);
}

#[test]
fn slot_cols_cycle_through_columns() {
    for s in 0..36 {
        assert_eq!(inventory_grid::grid::slot_col(s), s % 9);
    }
}

#[test]
fn cell_origin_of_first_slots() {
    assert_eq!(inventory_grid::grid::cell_x(0), 120);
    assert_eq!(inventory_grid::grid::cell_y(0), 275);
    assert_eq!(inventory_grid::grid::cell_x(1), 186);
    assert_eq!(inventory_grid::grid::cell_y(1), 275);
    assert_eq!(inventory_grid::grid::cell_x(9), 120);
    assert_eq!(inventory_grid::grid::cell_y(9), 341);
}

#[test]
fn empty_inventory_renders_all_placeholders_and_nothing_else() {
    let catalog = TextureState::new(DirectoryScan::Files(vec![LoadAttempt {
        file_name: String::from("rose.png"),
        texture: Some(0),
    }]));
    let inventory = Inventory::new();
    let cmds = inventory.render(&catalog);
    assert_eq!(cmds.len(), 36);
    for cmd in &cmds {
        assert!(matches!(cmd, DrawCmd::Slot { .. }));
    }
}

#[test]
fn placeholder_squares_cover_every_cell() {
    let catalog = TextureState::new(DirectoryScan::Missing);
    let inventory = Inventory::new();
    let cmds = inventory.render(&catalog);
    assert_eq!(
        cmds[0],
        DrawCmd::Slot {
            x: 120,
            y: 275,
            size: 64
        }
    );
    assert_eq!(
        cmds[10],
        DrawCmd::Slot {
            x: 186,
            y: 341,
            size: 64
        }
    );
    assert_eq!(
        cmds[35],
        DrawCmd::Slot {
            x: 120 + 8 * 66,
            y: 275 + 3 * 66,
            size: 64
        }
    );
}

#[test]
fn textured_item_draws_sprite_and_label() {
    let catalog = TextureState::new(DirectoryScan::Files(vec![LoadAttempt {
        file_name: String::from("Rose_Flower.png"),
        texture: Some(0),
    }]));
    let mut inventory = Inventory::new();
    assert!(inventory.add_item(Item::new("Rose_Flower")).is_ok());
    let cmds = inventory.render(&catalog);
    assert_eq!(cmds.len(), 38);
    assert_eq!(
        cmds[36],
        DrawCmd::Sprite {
            texture: 0,
            x: 128,
            y: 283,
            size: 48
        }
    );
    assert_eq!(
        cmds[37],
        DrawCmd::Amount {
            amount: 1,
            x: 128,
            y: 339,
            font_size: 24
        }
    );
}

#[test]
fn stacked_item_draws_second_corner_label() {
    let catalog = TextureState::new(DirectoryScan::Files(vec![LoadAttempt {
        file_name: String::from("Rose_Flower.png"),
        texture: Some(0),
    }]));
    let mut inventory = Inventory::new();
    assert!(inventory.add_item(Item::new("Rose_Flower")).is_ok());
    assert!(inventory.add_item(Item::with_amount("Rose_Flower", 2)).is_ok());
    let cmds = inventory.render(&catalog);
    assert_eq!(cmds.len(), 39);
    assert_eq!(
        cmds[37],
        DrawCmd::Amount {
            amount: 3,
            x: 128,
            y: 339,
            font_size: 24
        }
    );
    assert_eq!(
        cmds[38],
        DrawCmd::Amount {
            amount: 3,
            x: 168,
            y: 331,
            font_size: 16
        }
    );
}

#[test]
fn untextured_item_is_skipped_silently() {
    let catalog = TextureState::new(DirectoryScan::Missing);
    let mut inventory = Inventory::new();
    assert!(inventory.add_item(Item::new("Rose_Flower")).is_ok());
    let cmds = inventory.render(&catalog);
    assert_eq!(cmds.len(), 36);
    for cmd in &cmds {
        assert!(matches!(cmd, DrawCmd::Slot { .. }));
    }
}

#[test]
fn click_inside_first_cell_hits_slot_zero() {
    let inventory = Inventory::new();
    let report = inventory.click_report(121, 276).expect("inside slot 0");
    assert_eq!(report.slot, 0);
    assert!(report.occupant.is_none());
}

#[test]
fn click_at_second_cell_origin_hits_slot_one() {
    let inventory = Inventory::new();
    let report = inventory.click_report(120 + 66, 275).expect("inside slot 1");
    assert_eq!(report.slot, 1);
}

#[test]
fn click_outside_grid_hits_nothing() {
    let inventory = Inventory::new();
    assert!(inventory.click_report(119, 275).is_none());
    assert!(inventory.click_report(185, 276).is_none());
    assert!(inventory.click_report(0, 0).is_none());
}

#[test]
fn click_on_occupied_slot_reports_the_item() {
    let mut inventory = Inventory::new();
    assert!(inventory.add_item(Item::new("Rose_Flower")).is_ok());
    assert!(inventory.add_item(Item::with_amount("Rose_Flower", 4)).is_ok());
    let report = inventory.click_report(130, 300).expect("inside slot 0");
    assert_eq!(report.slot, 0);
    let (name, amount) = report.occupant.expect("slot 0 is occupied");
    assert_eq!(name, "Rose_Flower");
    assert_eq!(amount, 5);
}
