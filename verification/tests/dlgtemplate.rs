use pockethle::dlgtemplate::class_ordinal;
use pockethle::dlgtemplate::{parse, Dlu, ItemClass};

struct Builder(Vec<u8>);

impl Builder {
    fn new() -> Self {
        Self(Vec::new())
    }
    fn u16(&mut self, v: u16) -> &mut Self {
        self.0.extend_from_slice(&v.to_le_bytes());
        self
    }
    fn u32(&mut self, v: u32) -> &mut Self {
        self.0.extend_from_slice(&v.to_le_bytes());
        self
    }
    fn wstr(&mut self, s: &str) -> &mut Self {
        for u in s.encode_utf16() {
            self.u16(u);
        }
        self.u16(0)
    }
    fn align4(&mut self) -> &mut Self {
        while self.0.len() % 4 != 0 {
            self.0.push(0);
        }
        self
    }
}

fn solitaire_panel() -> Vec<u8> {
    let mut b = Builder::new();
    b.u32(0x5080_0000)
        .u32(0)
        .u16(3)
        .u16(267)
        .u16(3)
        .u16(47)
        .u16(118)
        .u16(0)
        .u16(0)
        .u16(0);
    b.align4()
        .u32(0x5001_0000)
        .u32(0)
        .u16(2)
        .u16(2)
        .u16(44)
        .u16(13)
        .u16(1000)
        .u16(0xFFFF)
        .u16(class_ordinal::BUTTON)
        .wstr("E&xit")
        .u16(0);
    b.align4()
        .u32(0x5801_0000)
        .u32(0)
        .u16(2)
        .u16(51)
        .u16(44)
        .u16(13)
        .u16(1002)
        .u16(0xFFFF)
        .u16(class_ordinal::BUTTON)
        .wstr("&Undo")
        .u16(0);
    b.align4()
        .u32(0x5002_0001)
        .u32(0)
        .u16(2)
        .u16(89)
        .u16(44)
        .u16(10)
        .u16(1006)
        .u16(0xFFFF)
        .u16(class_ordinal::STATIC)
        .wstr("0:00")
        .u16(0);
    b.0
}

#[test]
fn parses_the_solitaire_panel_header_and_items() {
    let t = parse(&solitaire_panel()).expect("template parses");
    assert_eq!(t.style, 0x5080_0000);
    assert_eq!((t.x, t.y, t.cx, t.cy), (267, 3, 47, 118));
    assert_eq!(t.title, "");
    assert_eq!(t.items.len(), 3);

    assert_eq!(t.items[0].id, 1000);
    assert_eq!(t.items[0].class, ItemClass::Ordinal(class_ordinal::BUTTON));
    assert_eq!(t.items[0].title, "E&xit");
    assert_eq!(
        (t.items[0].x, t.items[0].y, t.items[0].cx, t.items[0].cy),
        (2, 2, 44, 13)
    );

    assert_eq!(t.items[1].id, 1002);
    assert_ne!(t.items[1].style & 0x0800_0000, 0);
    assert_eq!(t.items[0].style & 0x0800_0000, 0);

    assert_eq!(t.items[2].id, 1006);
    assert_eq!(t.items[2].class, ItemClass::Ordinal(class_ordinal::STATIC));
    assert_eq!(t.items[2].title, "0:00");
}

#[test]
fn a_named_class_and_creation_data_are_stepped_over() {
    let mut b = Builder::new();
    b.u32(0x5000_0000)
        .u32(0)
        .u16(2)
        .u16(0)
        .u16(0)
        .u16(100)
        .u16(50)
        .u16(0)
        .u16(0)
        .u16(0);
    b.align4()
        .u32(0x5000_0000)
        .u32(0)
        .u16(1)
        .u16(1)
        .u16(10)
        .u16(10)
        .u16(7)
        .wstr("MyGrid")
        .wstr("grid")
        .u16(3);
    b.0.extend_from_slice(&[0xAA, 0xBB, 0xCC]);
    b.align4()
        .u32(0x5000_0000)
        .u32(0)
        .u16(2)
        .u16(2)
        .u16(20)
        .u16(20)
        .u16(8)
        .u16(0xFFFF)
        .u16(class_ordinal::EDIT)
        .wstr("tail")
        .u16(0);

    let t = parse(&b.0).expect("template parses");
    assert_eq!(t.items.len(), 2);
    assert_eq!(t.items[0].class, ItemClass::Named("MyGrid".into()));
    assert_eq!(t.items[0].title, "grid");
    assert_eq!(t.items[1].id, 8);
    assert_eq!(t.items[1].class, ItemClass::Ordinal(class_ordinal::EDIT));
    assert_eq!(t.items[1].title, "tail");
}

#[test]
fn a_dsetfont_header_skips_the_typeface() {
    let mut b = Builder::new();
    b.u32(0x5000_0040)
        .u32(0)
        .u16(1)
        .u16(0)
        .u16(0)
        .u16(100)
        .u16(50)
        .u16(0)
        .u16(0)
        .wstr("Options")
        .u16(9)
        .wstr("Tahoma");
    b.align4()
        .u32(0x5000_0000)
        .u32(0)
        .u16(5)
        .u16(5)
        .u16(30)
        .u16(12)
        .u16(42)
        .u16(0xFFFF)
        .u16(class_ordinal::BUTTON)
        .wstr("&Vegas")
        .u16(0);

    let t = parse(&b.0).expect("template parses");
    assert_eq!(t.title, "Options");
    assert_eq!(t.items.len(), 1);
    assert_eq!(t.items[0].id, 42);
    assert_eq!(t.items[0].title, "&Vegas");
}

#[test]
fn a_truncated_or_implausible_blob_is_refused() {
    let full = solitaire_panel();
    assert!(parse(&full[..full.len() - 6]).is_none());
    assert!(parse(&[]).is_none());
    assert!(parse(&[0u8; 8]).is_none());
    let mut ex = Builder::new();
    ex.u32(0xFFFF_0001)
        .u32(0)
        .u16(2)
        .u16(0)
        .u16(0)
        .u16(9)
        .u16(9);
    assert!(parse(&ex.0).is_none());
}

#[test]
fn dialog_units_scale_the_reference_layout() {
    let dlu = Dlu::default();
    assert_eq!(dlu.x_to_px(47), 82);
    assert_eq!(dlu.y_to_px(118), 206);
    assert_eq!(dlu.x_to_px(44), 77);
    assert_eq!(dlu.y_to_px(13), 22);
    let tops: Vec<i32> = [2, 17, 36, 51, 66]
        .iter()
        .map(|d| dlu.y_to_px(*d))
        .collect();
    assert_eq!(tops, vec![3, 29, 63, 89, 115]);
}

#[test]
fn an_item_count_of_zero_or_over_255_is_refused() {
    let mut zero = Builder::new();
    zero.u32(0x5000_0000).u32(0).u16(0).u16(0).u16(0).u16(9).u16(9).u16(0).u16(0).u16(0);
    assert!(parse(&zero.0).is_none());
    let mut many = Builder::new();
    many.u32(0x5000_0000).u32(0).u16(256).u16(0).u16(0).u16(9).u16(9).u16(0).u16(0).u16(0);
    assert!(parse(&many.0).is_none());
}

#[test]
fn an_ordinal_title_reads_as_empty_and_negative_units_round_toward_zero() {
    let mut b = Builder::new();
    b.u32(0x5000_0000)
        .u32(0)
        .u16(1)
        .u16(0)
        .u16(0)
        .u16(9)
        .u16(9)
        .u16(0)
        .u16(0)
        .u16(0xFFFF)
        .u16(77);
    b.align4()
        .u32(0)
        .u32(0)
        .u16(0xFFFE)
        .u16(0)
        .u16(1)
        .u16(1)
        .u16(5)
        .u16(0xFFFF)
        .u16(class_ordinal::STATIC)
        .u16(0xFFFF)
        .u16(12)
        .u16(0);
    let t = parse(&b.0).expect("template parses");
    assert_eq!(t.title, "");
    assert_eq!(t.items[0].title, "");
    assert_eq!(t.items[0].x, -2);
    let dlu = Dlu::default();
    assert_eq!(dlu.x_to_px(-3), -5);
    assert_eq!(dlu.to_px(4, 8, 4, 8), (7, 14, 7, 14));
}
