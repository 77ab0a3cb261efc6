use openlogi::buttons::ButtonId;
use openlogi::metadata::{map_slot_name, Assignment, Direction, ImageEntry, Metadata, Origin};

fn asg(slot: &str, marker: (i32, i32)) -> Assignment<(i32, i32)> {
    Assignment { slot_name: slot.to_string(), marker, label: Direction { x: 1, y: 0 } }
}

#[test]
fn slot_names_map_to_buttons() {
    assert_eq!(map_slot_name("SLOT_NAME_LEFT_BUTTON"), Some(ButtonId::LeftClick));
    assert_eq!(map_slot_name("SLOT_NAME_MODESHIFT_BUTTON"), Some(ButtonId::DpiToggle));
    assert_eq!(map_slot_name("SLOT_NAME_THUMBWHEEL"), None);
    assert_eq!(map_slot_name("slot_name_left_button"), None);
}

#[test]
fn hotspots_come_from_the_buttons_image() {
    let meta = Metadata {
        images: vec![
            ImageEntry {
                key: "device_image".to_string(),
                origin: Origin { width: 687, height: 1024 },
                assignments: vec![asg("SLOT_NAME_BACK_BUTTON", (1, 1))],
            },
            ImageEntry {
                key: "device_buttons_image".to_string(),
                origin: Origin { width: 687, height: 1024 },
                assignments: vec![
                    asg("SLOT_NAME_MIDDLE_BUTTON", (73, 18)),
                    asg("SLOT_NAME_GESTURE_BUTTON", (10, 10)),
                    asg("SLOT_NAME_FORWARD_BUTTON", (5, 60)),
                ],
            },
        ],
    };
    assert_eq!(meta.origin(), Some(Origin { width: 687, height: 1024 }));
    let hs = meta.hotspots();
    let got: Vec<(ButtonId, (i32, i32))> = hs.iter().map(|h| (h.id, h.marker)).collect();
    assert_eq!(got, vec![(ButtonId::MiddleClick, (73, 18)), (ButtonId::Forward, (5, 60))]);
    assert_eq!(hs[0].label, Direction { x: 1, y: 0 });
    let none: Metadata<(i32, i32)> = Metadata { images: vec![] };
    assert_eq!(none.origin(), None);
    assert!(none.hotspots().is_empty());
}

#[test]
fn origin_comes_from_the_device_image() {
    let meta: Metadata<(i32, i32)> = Metadata {
        images: vec![
            ImageEntry {
                key: "device_buttons_image".to_string(),
                origin: Origin { width: 1, height: 2 },
                assignments: vec![],
            },
            ImageEntry {
                key: "device_image".to_string(),
                origin: Origin { width: 687, height: 1024 },
                assignments: vec![],
            },
        ],
    };
    assert_eq!(meta.origin(), Some(Origin { width: 687, height: 1024 }));
    let only_buttons: Metadata<(i32, i32)> = Metadata {
        images: vec![ImageEntry {
            key: "device_buttons_image".to_string(),
            origin: Origin { width: 1, height: 2 },
            assignments: vec![],
        }],
    };
    assert_eq!(only_buttons.origin(), None);
}
