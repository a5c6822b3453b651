use calculator::geometry::{Panel, Position, Rect, Shape};
use calculator::logic::{to_decimal, ArithmeticError, Backend, Operation};

#[test]
fn decimal_rendering_of_zero() {
    assert_eq!(to_decimal(0), b"0".to_vec());
}

#[test]
fn decimal_rendering_of_positive_numbers() {
    assert_eq!(to_decimal(8), b"8".to_vec());
    assert_eq!(to_decimal(123), b"123".to_vec());
    assert_eq!(to_decimal(1000), b"1000".to_vec());
    assert_eq!(to_decimal(i128::MAX), b"170141183460469231731687303715884105727".to_vec());
}

#[test]
fn decimal_rendering_of_negative_numbers() {
    assert_eq!(to_decimal(-1), b"-1".to_vec());
    assert_eq!(to_decimal(-205), b"-205".to_vec());
    assert_eq!(to_decimal(i128::MIN), b"-170141183460469231731687303715884105728".to_vec());
}

#[test]
fn panel_update_renders_the_accumulator() {
    let mut panel = Panel {
        pos: Position { x: 1200, y: 0 },
        shape: Shape::Rect(Rect { width: 700, height: 1200, thickness: 15 }),
        text: b"0".to_vec(),
    };
    let backend = Backend { new: false, num1: 0, num2: -42, operation: Operation::Inactive };
    panel.update(&backend);
    assert_eq!(panel.text, b"-42".to_vec());
    assert_eq!(panel.pos, Position { x: 1200, y: 0 });
}

#[test]
fn panel_shows_arithmetic_errors() {
    let mut panel = Panel {
        pos: Position { x: 0, y: 0 },
        shape: Shape::Rect(Rect { width: 10, height: 10, thickness: 1 }),
        text: Vec::new(),
    };
    panel.show_error(&ArithmeticError::DivideByZero);
    assert_eq!(panel.text, b"divide by zero".to_vec());
    panel.show_error(&ArithmeticError::Overflow);
    assert_eq!(panel.text, b"overflow".to_vec());
}

#[test]
fn error_labels() {
    assert_eq!(ArithmeticError::DivideByZero.label(), b"divide by zero".to_vec());
    assert_eq!(ArithmeticError::Overflow.label(), b"overflow".to_vec());
}
