use hover_interaction::eventhandling::EntityId;
use hover_interaction::util::{add_resource_soft, find_ui_by_name, rotate_3x3, SoftAdd, UiName};

#[test]
fn rotate_turns_the_grid_a_quarter() {
    let grid = [[1, 2, 3], [4, 5, 6], [7, 8, 9]];
    assert_eq!(rotate_3x3(&grid), [[7, 4, 1], [8, 5, 2], [9, 6, 3]]);
}

#[test]
fn rotate_follows_its_formula() {
    let grid = [["a", "b", "c"], ["d", "e", "f"], ["g", "h", "i"]];
    let turned = rotate_3x3(&grid);
    for x in 0..3 {
        for y in 0..3 {
            assert_eq!(turned[x][y], grid[2 - y][x]);
        }
    }
}

#[test]
fn rotate_four_times_is_the_identity() {
    let grid = [
        [String::from("nw"), String::from("n"), String::from("ne")],
        [String::from("w"), String::from("c"), String::from("e")],
        [String::from("sw"), String::from("s"), String::from("se")],
    ];
    let once = rotate_3x3(&grid);
    assert_ne!(once, grid);
    assert_eq!(once[0][0], "sw");
    assert_eq!(once[1][1], "c");
    let four = rotate_3x3(&rotate_3x3(&rotate_3x3(&once)));
    assert_eq!(four, grid);
}

fn names(list: &[(u32, &str)]) -> Vec<UiName> {
    list.iter()
        .map(|(index, id)| UiName {
            entity: EntityId::new(*index, 0),
            id: String::from(*id),
        })
        .collect()
}

#[test]
fn find_ui_gives_the_element_with_the_name() {
    let list = names(&[(1, "menu"), (2, "score"), (3, "health")]);
    assert_eq!(find_ui_by_name("score", &list), Some(EntityId::new(2, 0)));
    assert_eq!(find_ui_by_name("menu", &list), Some(EntityId::new(1, 0)));
    assert_eq!(find_ui_by_name("health", &list), Some(EntityId::new(3, 0)));
}

#[test]
fn find_ui_gives_none_without_a_match() {
    let list = names(&[(1, "menu"), (2, "score")]);
    assert_eq!(find_ui_by_name("Score", &list), None);
    assert_eq!(find_ui_by_name("scor", &list), None);
    assert_eq!(find_ui_by_name("", &list), None);
    assert_eq!(find_ui_by_name("menu", &names(&[])), None);
}

#[test]
fn find_ui_gives_the_first_of_two_with_one_name() {
    let list = names(&[(1, "a"), (2, "b"), (3, "b"), (4, "")]);
    assert_eq!(find_ui_by_name("b", &list), Some(EntityId::new(2, 0)));
    assert_eq!(find_ui_by_name("", &list), Some(EntityId::new(4, 0)));
}

#[test]
fn soft_add_decides_by_what_is_registered() {
    assert_eq!(add_resource_soft(true, true), SoftAdd::Add);
    assert_eq!(add_resource_soft(true, false), SoftAdd::Add);
    assert_eq!(add_resource_soft(false, true), SoftAdd::Write);
    assert_eq!(add_resource_soft(false, false), SoftAdd::Keep);
}
