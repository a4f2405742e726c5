//! The frame grid and the text screen built on top of it.

use tetris::frame::FrameWork;
use tetris::interface::InterFace;

#[test]
fn test_framework_draws_outer_border() {
    let f = FrameWork::new(30, 70);
    let v = f.get_vec();
    assert_eq!(v.len(), 30);
    for row in &v {
        assert_eq!(row.len(), 70);
    }
    assert_eq!(v[0][0], '╔');
    assert_eq!(v[0][69], '╗');
    assert_eq!(v[29][0], '╚');
    assert_eq!(v[29][69], '╝');
    assert_eq!(v[0][35], '═');
    assert_eq!(v[29][35], '═');
    assert_eq!(v[15][0], '║');
    assert_eq!(v[15][69], '║');
    assert_eq!(v[15][35], ' ');
}

#[test]
fn test_framework_borders_merge_into_junctions() {
    let mut f = FrameWork::new(30, 70);
    f.rdraw(0, 29, 0, 39);
    let v = f.get_vec();
    // the second border shares the outer one's top and bottom rows
    assert_eq!(v[0][39], '╦');
    assert_eq!(v[29][39], '╩');
    assert_eq!(v[15][39], '║');
    assert_eq!(v[0][0], '╔');
}

#[test]
fn test_framework_rejects_degenerate_border() {
    let mut f = FrameWork::new(10, 10);
    let before = f.get_vec();
    f.rdraw(3, 3, 0, 9);
    assert_eq!(f.get_vec(), before, "a zero-height border draws nothing");
    f.rdraw(0, 9, 4, 4);
    assert_eq!(f.get_vec(), before, "a zero-width border draws nothing");
    f.rdraw(0, 12, 0, 9);
    assert_eq!(f.get_vec(), before, "an edge outside the grid draws nothing");
}

#[test]
fn test_framework_single_cell_grid_stays_blank() {
    let f = FrameWork::new(1, 1);
    let v = f.get_vec();
    assert_eq!(v.len(), 1);
    assert_eq!(v[0], vec![' ']);
}

#[test]
fn test_interface_layout() {
    let ui = InterFace::new();
    assert_eq!(ui.height, 30);
    assert_eq!(ui.width, 70);
    assert_eq!(ui.interface.len(), 30);
    for row in &ui.interface {
        assert_eq!(row.len(), 70);
    }
    let caption: String = ui.interface[2][49..60].iter().collect();
    assert_eq!(caption, "Next Tetris");
    let ops: String = ui.interface[14][43..54].iter().collect();
    assert_eq!(ops, "Operations:");
    assert_eq!(ui.interface[0][0], '╔');
    assert_eq!(ui.interface[29][69], '╝');
    // the board well's separator column inside the outer frame
    assert_eq!(ui.interface[15][39], '║');
}
