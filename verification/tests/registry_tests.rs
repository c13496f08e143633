use moonlit::coords::ChunkCoord;
use moonlit::registry::Registry;

fn c(x: i32, y: i32) -> ChunkCoord {
    ChunkCoord { x, y }
}

#[test]
fn new_registry_is_empty() {
    let reg = Registry::new();
    assert_eq!(reg.len(), 0);
    assert!(!reg.contains(c(0, 0)));
}

#[test]
fn insert_then_contains() {
    let mut reg = Registry::new();
    assert!(reg.insert(c(1, 2)));
    assert!(reg.contains(c(1, 2)));
    assert!(!reg.contains(c(2, 1)));
    assert_eq!(reg.len(), 1);
}

#[test]
fn double_insert_is_a_no_op() {
    let mut reg = Registry::new();
    assert!(reg.insert(c(4, -4)));
    assert!(!reg.insert(c(4, -4)));
    assert_eq!(reg.len(), 1);
}

#[test]
fn remove_unregisters() {
    let mut reg = Registry::new();
    reg.insert(c(0, 0));
    reg.insert(c(1, 0));
    assert!(reg.remove(c(0, 0)));
    assert!(!reg.contains(c(0, 0)));
    assert!(reg.contains(c(1, 0)));
    assert_eq!(reg.len(), 1);
}

#[test]
fn remove_of_absent_is_a_no_op() {
    let mut reg = Registry::new();
    reg.insert(c(0, 0));
    assert!(!reg.remove(c(9, 9)));
    assert_eq!(reg.len(), 1);
    assert!(reg.contains(c(0, 0)));
}

#[test]
fn members_vec_lists_each_coordinate_once() {
    let mut reg = Registry::new();
    reg.insert(c(0, 0));
    reg.insert(c(1, 0));
    reg.insert(c(0, 1));
    reg.insert(c(1, 0));
    let members = reg.members_vec();
    assert_eq!(members.len(), 3);
    assert!(members.contains(&c(0, 0)));
    assert!(members.contains(&c(1, 0)));
    assert!(members.contains(&c(0, 1)));
}
