use phobos::tokeniser_state::TokeniserState;
use phobos::token::Location;

#[test]
fn state_moves_over_lines() {
    let mut s = TokeniserState::new(b"  ab\ncd\n\nef".to_vec());
    let mut w = TokeniserState::new("é\n".as_bytes().to_vec());
    w.consume_chars(2);
    assert_eq!(w.location, Location { line: 1, col: 2 });
    w.trim_whitespace();
    assert_eq!(w.location, Location { line: 1, col: 3 });
    assert_eq!(s.line_buffer(), b"  ab\n".to_vec());
    s.trim_whitespace();
    assert_eq!(s.location, Location { line: 1, col: 3 });
    s.consume_chars(2);
    assert_eq!(s.location, Location { line: 1, col: 5 });
    assert!(!s.is_end_of_line());
    s.consume_chars(1);
    assert!(s.is_end_of_line());
    assert_eq!(s.location, Location { line: 1, col: 6 });
    assert!(s.has_next_line());
    s.pop_line();
    assert_eq!(s.location, Location { line: 2, col: 1 });
    assert_eq!(s.line_buffer(), b"cd\n".to_vec());
    s.pop_line();
    assert_eq!(s.location, Location { line: 3, col: 1 });
    assert_eq!(s.line_buffer(), b"cd\n\n".to_vec());
    s.pop_line();
    assert!(!s.has_next_line());
    assert_eq!(s.location, Location { line: 4, col: 1 });
    s.consume_chars(4);
    assert_eq!(s.location, Location { line: 4, col: 5 });
    assert!(!s.is_end_of_file());
    s.consume_chars(2);
    assert!(s.is_end_of_file());
    assert_eq!(s.location, Location { line: 4, col: 7 });
}
