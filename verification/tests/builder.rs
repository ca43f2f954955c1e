use pdfpurr::content::builder::{BuilderCall, ContentStreamBuilder, TextItem};

fn build<F: FnOnce(&mut ContentStreamBuilder)>(f: F) -> Vec<u8> {
    let mut b = ContentStreamBuilder::new();
    f(&mut b);
    b.build()
}

#[test]
fn builder_empty_stream() {
    let data = ContentStreamBuilder::new().build();
    assert!(data.is_empty());
}

#[test]
fn builder_begin_end_text() {
    let data = build(|b| {
        b.begin_text().end_text();
    });
    assert_eq!(data, b"BT\nET\n");
}

#[test]
fn builder_show_text() {
    let data = build(|b| {
        b.show_text("Hello");
    });
    assert_eq!(data, b"(Hello) Tj\n");
}

#[test]
fn builder_show_text_escaping() {
    let data = build(|b| {
        b.show_text("a(b)c\\d");
    });
    assert_eq!(data, b"(a\\(b\\)c\\\\d) Tj\n");
}

#[test]
fn builder_show_text_adjusted() {
    let data = build(|b| {
        b.show_text_adjusted(&[TextItem::Text("Hello"), TextItem::Spacing(-100), TextItem::Text("World")]);
    });
    assert_eq!(data, b"[(Hello) -100 (World)] TJ\n");
}

#[test]
fn builder_save_restore() {
    let data = build(|b| {
        b.save_state().restore_state();
    });
    assert_eq!(data, b"q\nQ\n");
}

#[test]
fn builder_draw_image() {
    let data = build(|b| {
        b.draw_image("Im1");
    });
    assert_eq!(data, b"/Im1 Do\n");
}

#[test]
fn builder_next_line() {
    let data = build(|b| {
        b.next_line();
    });
    assert_eq!(data, b"T*\n");
}

#[test]
fn builder_path_painting_and_names() {
    let data = build(|b| {
        b.close_path().stroke().fill().fill_and_stroke().draw_image("A B#");
    });
    assert_eq!(data, b"h\nS\nf\nB\n/A#20B#23 Do\n");
}

#[test]
fn builder_empty_tj_and_non_ascii_text() {
    let data = build(|b| {
        b.show_text_adjusted(&[]);
    });
    assert_eq!(data, b"[] TJ\n");
    let data = build(|b| {
        b.show_text("\u{e9}");
    });
    assert_eq!(data, b"(\xc3\xa9) Tj\n");
}

#[test]
fn operation_with_written_operands() {
    let mut b = ContentStreamBuilder::new();
    let name = pdfpurr::content::builder::name_operand("F 1");
    assert_eq!(name, "/F#201");
    b.operation(&[name.as_str(), "12"], "Tf").operation(&["100", "700.5"], "Td").operation(&[], "BT");
    assert_eq!(b.build(), b"/F#201 12 Tf\n100 700.5 Td\nBT\n".to_vec());
}

#[test]
fn builder_calls_concatenate_their_outputs() {
    let items = [TextItem::Text("A"), TextItem::Spacing(-50), TextItem::Text("B")];
    let ops: [&str; 2] = ["1", "0"];
    let calls = [
        BuilderCall::SaveState,
        BuilderCall::BeginText,
        BuilderCall::ShowText("Hi"),
        BuilderCall::ShowTextAdjusted(&items),
        BuilderCall::Operation(&ops, "Td"),
        BuilderCall::EndText,
        BuilderCall::DrawImage("Im 1"),
        BuilderCall::RestoreState,
    ];
    let mut b = ContentStreamBuilder::new();
    b.apply_all(&calls);
    let all = b.build();
    let mut joined: Vec<u8> = Vec::new();
    for c in calls.iter() {
        let mut one = ContentStreamBuilder::new();
        one.apply(c);
        joined.extend_from_slice(&one.build());
    }
    assert_eq!(all, joined);
    assert_eq!(
        String::from_utf8(all).unwrap(),
        "q\nBT\n(Hi) Tj\n[(A) -50 (B)] TJ\n1 0 Td\nET\n/Im#201 Do\nQ\n"
    );
}
