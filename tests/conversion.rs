use svg_turtle::{
    construct_add_equals, construct_assignment, convert, normalize, program, render_all,
    translate, update_current_pos, Command, NormalizeError, Position, Token,
};

fn nums(v: &[&str]) -> Vec<String> {
    v.iter().map(|s| s.to_string()).collect()
}

fn show_position(p: &Position) -> &'static str {
    match p {
        Position::Absolute => "abs",
        Position::Relative => "rel",
    }
}

fn show(c: &Command) -> String {
    match c {
        Command::Move(p, ps) => format!("M {} {}", show_position(p), ps.join(",")),
        Command::Line(p, ps) => format!("L {} {}", show_position(p), ps.join(",")),
        Command::HorizontalLine(p, ps) => format!("H {} {}", show_position(p), ps.join(",")),
        Command::VerticalLine(p, ps) => format!("V {} {}", show_position(p), ps.join(",")),
        Command::Close => "Z".to_string(),
        Command::Other => "other".to_string(),
    }
}

fn shown(cs: &[Command]) -> Vec<String> {
    cs.iter().map(show).collect()
}

fn rendered(ts: &Vec<Token>) -> Vec<String> {
    render_all(ts)
}

#[test]
fn multi_point_move_splits_into_move_and_lines() {
    let out = normalize(vec![Command::Move(
        Position::Absolute,
        nums(&["1", "2", "3", "4", "5", "6"]),
    )])
    .unwrap();
    assert_eq!(shown(&out), vec!["M abs 1,2", "L abs 3,4", "L abs 5,6"]);
}

#[test]
fn relative_multi_point_move_keeps_its_mode() {
    let out = normalize(vec![Command::Move(Position::Relative, nums(&["1", "2", "3", "4"]))])
        .unwrap();
    assert_eq!(shown(&out), vec!["M rel 1,2", "L rel 3,4"]);
}

#[test]
fn single_pair_move_stays_one_move() {
    let out = normalize(vec![Command::Move(Position::Absolute, nums(&["7", "8"]))]).unwrap();
    assert_eq!(shown(&out), vec!["M abs 7,8"]);
}

#[test]
fn multi_point_line_splits_into_lines() {
    let out = normalize(vec![
        Command::Move(Position::Absolute, nums(&["0", "0"])),
        Command::Line(Position::Relative, nums(&["1", "2", "3", "4"])),
    ])
    .unwrap();
    assert_eq!(shown(&out), vec!["M abs 0,0", "L rel 1,2", "L rel 3,4"]);
}

#[test]
fn single_axis_lines_split_per_number() {
    let out = normalize(vec![
        Command::Move(Position::Absolute, nums(&["0", "0"])),
        Command::HorizontalLine(Position::Absolute, nums(&["4", "5"])),
        Command::VerticalLine(Position::Relative, nums(&["6"])),
    ])
    .unwrap();
    assert_eq!(shown(&out), vec!["M abs 0,0", "H abs 4", "H abs 5", "V rel 6"]);
}

#[test]
fn close_becomes_line_to_latest_move() {
    let out = normalize(vec![
        Command::Move(Position::Absolute, nums(&["10", "10"])),
        Command::Line(Position::Absolute, nums(&["20", "10"])),
        Command::Line(Position::Absolute, nums(&["20", "20"])),
        Command::Close,
    ])
    .unwrap();
    assert_eq!(show(out.last().unwrap()), "L abs 10,10");
}

#[test]
fn close_follows_the_most_recent_move() {
    let out = normalize(vec![
        Command::Move(Position::Absolute, nums(&["1", "1"])),
        Command::Close,
        Command::Move(Position::Absolute, nums(&["5", "6", "7", "8"])),
        Command::Close,
    ])
    .unwrap();
    assert_eq!(
        shown(&out),
        vec!["M abs 1,1", "L abs 1,1", "M abs 5,6", "L abs 7,8", "L abs 5,6"]
    );
}

#[test]
fn close_before_move_fails() {
    let r = normalize(vec![Command::Close]);
    assert!(matches!(r, Err(NormalizeError::CloseWithoutMove)));
}

#[test]
fn move_without_numbers_fails() {
    let r = normalize(vec![Command::Move(Position::Absolute, vec![])]);
    assert!(matches!(r, Err(NormalizeError::MalformedMove)));
}

#[test]
fn move_with_odd_count_fails() {
    let r = normalize(vec![
        Command::Move(Position::Absolute, nums(&["1", "2"])),
        Command::Move(Position::Absolute, nums(&["1", "2", "3"])),
    ]);
    assert!(matches!(r, Err(NormalizeError::MalformedMove)));
}

#[test]
fn first_error_wins() {
    let r = normalize(vec![
        Command::Close,
        Command::Move(Position::Absolute, nums(&["1"])),
    ]);
    assert!(matches!(r, Err(NormalizeError::CloseWithoutMove)));
}

#[test]
fn translate_fails_as_normalize_does() {
    let r = translate(vec![Command::Close], true);
    assert!(matches!(r, Err(NormalizeError::CloseWithoutMove)));
}

#[test]
fn absolute_move_translates_to_pen_up_and_move() {
    let ts = convert(&Command::Move(Position::Absolute, nums(&["3", "4"])));
    assert_eq!(rendered(&ts), vec!["поднять перо", "сместиться в точку(3, 4)"]);
}

#[test]
fn relative_line_translates_to_pen_down_and_vector() {
    let ts = convert(&Command::Line(Position::Relative, nums(&["1", "2"])));
    assert_eq!(rendered(&ts), vec!["опустить перо", "сместиться на вектор(1, 2)"]);
}

#[test]
fn relative_horizontal_line_puts_zero_on_y() {
    let ts = convert(&Command::HorizontalLine(Position::Relative, nums(&["5"])));
    assert_eq!(rendered(&ts), vec!["опустить перо", "сместиться на вектор(5, 0)"]);
}

#[test]
fn relative_vertical_line_puts_zero_on_x() {
    let ts = convert(&Command::VerticalLine(Position::Relative, nums(&["7"])));
    assert_eq!(rendered(&ts), vec!["опустить перо", "сместиться на вектор(0, 7)"]);
}

#[test]
fn absolute_horizontal_line_puts_literal_zero_on_y() {
    // The other axis gets a literal 0, not the last known coordinate.
    let ts = convert(&Command::HorizontalLine(Position::Absolute, nums(&["5"])));
    assert_eq!(rendered(&ts), vec!["опустить перо", "сместиться в точку(5, 0)"]);
}

#[test]
fn other_command_translates_to_nothing() {
    assert!(convert(&Command::Other).is_empty());
}

#[test]
fn tracker_after_absolute_move() {
    let ts = update_current_pos(Token::Move("3".to_string(), "4".to_string()));
    assert_eq!(ts.len(), 3);
    assert!(matches!(&ts[0], Token::Move(x, y) if x == "3" && y == "4"));
    assert!(matches!(&ts[1], Token::Assign(n, e) if n == "x" && e == "3"));
    assert!(matches!(&ts[2], Token::Assign(n, e) if n == "y" && e == "4"));
}

#[test]
fn tracker_after_relative_move() {
    let ts = update_current_pos(Token::MoveRelative("1".to_string(), "2".to_string()));
    assert_eq!(ts.len(), 3);
    assert!(matches!(&ts[0], Token::MoveRelative(x, y) if x == "1" && y == "2"));
    assert!(matches!(&ts[1], Token::Assign(n, e) if n == "x" && e == "x + (1)"));
    assert!(matches!(&ts[2], Token::Assign(n, e) if n == "y" && e == "y + (2)"));
}

#[test]
fn tracker_passes_other_tokens() {
    let ts = update_current_pos(Token::PenUp);
    assert_eq!(rendered(&ts), vec!["поднять перо"]);
}

#[test]
fn assignment_builders() {
    let a = construct_assignment("x", &"-2.5".to_string());
    assert_eq!(a.render(), "x := -2.5");
    let b = construct_add_equals("y", &"-2.5".to_string());
    assert_eq!(b.render(), "y := y + (-2.5)");
}

#[test]
fn renderer_table() {
    let cases = vec![
        (Token::Use("Чертежник".to_string()), "использовать Чертежник"),
        (Token::AlgorithmStart, "алг"),
        (Token::BlockStart, "нач"),
        (Token::BlockEnd, "кон"),
        (Token::PenDown, "опустить перо"),
        (Token::PenUp, "поднять перо"),
        (Token::Move("1".to_string(), "2".to_string()), "сместиться в точку(1, 2)"),
        (
            Token::MoveRelative("3".to_string(), "-4".to_string()),
            "сместиться на вектор(3, -4)",
        ),
        (Token::Variable("x".to_string()), "вещ x"),
        (Token::Assign("x".to_string(), "5".to_string()), "x := 5"),
        (Token::Add("x".to_string(), "5".to_string()), "x + (5)"),
        (Token::PainterModule, "Чертежник"),
    ];
    for (t, s) in cases {
        assert_eq!(t.render(), s);
    }
}

#[test]
fn end_to_end_square_path() {
    // M 0,0 L 10,0 10,10 Z, as a path-data parser delivers it.
    let ts = translate(
        vec![
            Command::Move(Position::Absolute, nums(&["0", "0"])),
            Command::Line(Position::Absolute, nums(&["10", "0", "10", "10"])),
            Command::Close,
        ],
        false,
    )
    .unwrap();
    assert_eq!(
        render_all(&ts),
        vec![
            "поднять перо",
            "сместиться в точку(0, 0)",
            "опустить перо",
            "сместиться в точку(10, 0)",
            "опустить перо",
            "сместиться в точку(10, 10)",
            "опустить перо",
            "сместиться в точку(0, 0)",
        ]
    );
}

#[test]
fn end_to_end_with_cursor() {
    let ts = translate(
        vec![
            Command::Move(Position::Absolute, nums(&["1", "2"])),
            Command::Line(Position::Relative, nums(&["3", "4"])),
        ],
        true,
    )
    .unwrap();
    assert_eq!(
        render_all(&ts),
        vec![
            "поднять перо",
            "сместиться в точку(1, 2)",
            "x := 1",
            "y := 2",
            "опустить перо",
            "сместиться на вектор(3, 4)",
            "x := x + (3)",
            "y := y + (4)",
        ]
    );
}

#[test]
fn unsupported_command_is_dropped_and_processing_goes_on() {
    let ts = translate(
        vec![
            Command::Move(Position::Absolute, nums(&["0", "0"])),
            Command::Other,
            Command::Line(Position::Absolute, nums(&["1", "1"])),
            Command::Other,
            Command::Close,
        ],
        false,
    )
    .unwrap();
    assert_eq!(
        render_all(&ts),
        vec![
            "поднять перо",
            "сместиться в точку(0, 0)",
            "опустить перо",
            "сместиться в точку(1, 1)",
            "опустить перо",
            "сместиться в точку(0, 0)",
        ]
    );
}

#[test]
fn program_frame() {
    let lines = render_all(&program(vec![Token::PenUp]));
    assert_eq!(
        lines,
        vec![
            "использовать Чертежник",
            "алг",
            "нач",
            "вещ x",
            "вещ y",
            "поднять перо",
            "кон",
        ]
    );
}

#[test]
fn number_text_follows_default_float_formatting() {
    // Numbers are handed over as the default text of an f32: no trailing
    // zeros, no exponent.
    let xs: Vec<String> = [10.0f32, 2.5, -0.125, 0.0000001].iter().map(|v| v.to_string()).collect();
    assert_eq!(xs, vec!["10", "2.5", "-0.125", "0.0000001"]);
    let ts = convert(&Command::Move(Position::Absolute, vec![xs[0].clone(), xs[1].clone()]));
    assert_eq!(rendered(&ts)[1], "сместиться в точку(10, 2.5)");
}
