use pdfpurr::fonts::graphics_state::GraphicsStateStack;

#[derive(Debug, Clone, PartialEq)]
struct TextState {
    font_name: Option<String>,
    font_size: f64,
    horizontal_scaling: f64,
}

impl Default for TextState {
    fn default() -> Self {
        TextState { font_name: None, font_size: 0.0, horizontal_scaling: 100.0 }
    }
}

#[test]
fn new_stack_is_empty_default() {
    let stack: GraphicsStateStack<TextState> = GraphicsStateStack::new();
    assert_eq!(stack.depth(), 0);
    assert_eq!(stack.current(), &TextState::default());
    assert_eq!(stack.current().horizontal_scaling, 100.0);
}

#[test]
fn save_and_restore() {
    let mut stack: GraphicsStateStack<TextState> = GraphicsStateStack::new();
    stack.current_mut().font_name = Some("F1".to_string());
    stack.current_mut().font_size = 12.0;
    stack.save();
    assert_eq!(stack.depth(), 1);
    stack.current_mut().font_name = Some("F2".to_string());
    stack.current_mut().font_size = 24.0;
    assert_eq!(stack.current().font_name, Some("F2".to_string()));
    stack.restore();
    assert_eq!(stack.depth(), 0);
    assert_eq!(stack.current().font_name, Some("F1".to_string()));
    assert_eq!(stack.current().font_size, 12.0);
}

#[test]
fn restore_empty_stack_resets_to_default() {
    let mut stack: GraphicsStateStack<TextState> = GraphicsStateStack::default();
    stack.current_mut().font_size = 42.0;
    stack.restore();
    assert_eq!(stack.current().font_size, 0.0);
    assert_eq!(stack.current().font_name, None);
}

#[test]
fn nested_save_restore() {
    let mut stack: GraphicsStateStack<TextState> = GraphicsStateStack::new();
    stack.current_mut().font_name = Some("F1".to_string());
    stack.save();
    stack.current_mut().font_name = Some("F2".to_string());
    stack.save();
    stack.current_mut().font_name = Some("F3".to_string());
    assert_eq!(stack.depth(), 2);
    stack.restore();
    assert_eq!(stack.current().font_name, Some("F2".to_string()));
    stack.restore();
    assert_eq!(stack.current().font_name, Some("F1".to_string()));
}
