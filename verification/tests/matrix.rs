use pockethle::matrix::{MatrixMode, MatrixStack};

const IDENTITY: [f32; 16] = [
    1.0, 0.0, 0.0, 0.0, //
    0.0, 1.0, 0.0, 0.0, //
    0.0, 0.0, 1.0, 0.0, //
    0.0, 0.0, 0.0, 1.0, //
];

fn translate(x: f32, y: f32, z: f32) -> [f32; 16] {
    let mut m = IDENTITY;
    m[12] = x;
    m[13] = y;
    m[14] = z;
    m
}

#[test]
fn push_pop_restores_the_matrix() {
    let mut s = MatrixStack::new(16, IDENTITY);
    s.load(translate(1.0, 0.0, 0.0));
    assert!(s.push());
    s.load_identity();
    assert_eq!(s.current()[12], 0.0);
    assert!(s.pop());
    assert_eq!(s.current()[12], 1.0);
    assert_eq!(s.depth(), 1);
}

#[test]
fn pop_on_empty_stack_reports_underflow() {
    let mut s = MatrixStack::new(16, IDENTITY);
    assert!(!s.pop());
    assert_eq!(s.depth(), 1);
}

#[test]
fn push_beyond_limit_reports_overflow() {
    let mut s = MatrixStack::new(4, IDENTITY);
    assert!(s.push());
    assert!(s.push());
    assert!(s.push());
    assert_eq!(s.depth(), 4);
    // The 4th push would exceed the documented depth.
    assert!(!s.push());
    assert_eq!(s.depth(), 4);
}

#[test]
fn the_stack_holds_any_copyable_matrix() {
    let mut s = MatrixStack::new(16, 1u32);
    s.load(7);
    assert!(s.push());
    s.load_identity();
    assert_eq!(*s.current(), 1);
    assert!(s.pop());
    assert_eq!(*s.current(), 7);
}

#[test]
fn matrix_modes_map_from_gl_enums() {
    assert_eq!(MatrixMode::from_enum(0x1700), Some(MatrixMode::Modelview));
    assert_eq!(MatrixMode::from_enum(0x1701), Some(MatrixMode::Projection));
    assert_eq!(MatrixMode::from_enum(0x1702), Some(MatrixMode::Texture));
    assert_eq!(MatrixMode::from_enum(0x1703), None);
}
