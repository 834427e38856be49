use poem_viewer::screen::Piece;
use poem_viewer::text::{decimal, format_status, status_line, title_le_exec, title_of};
use poem_viewer::viewer::{Action, Key, PoemViewer};

fn files(list: &[(&str, &str)]) -> Vec<(String, String)> {
    list.iter().map(|(n, c)| (n.to_string(), c.to_string())).collect()
}

fn titles(v: &PoemViewer) -> Vec<String> {
    (0..v.len()).map(|i| v.title(i).to_string()).collect()
}

fn three() -> PoemViewer {
    PoemViewer::from_files(files(&[("a.txt", "one"), ("b.txt", "two"), ("c.txt", "three")]))
}

#[test]
fn right_steps_come_back_after_a_full_cycle() {
    for start in 0..3 {
        let mut v = three();
        for _ in 0..start {
            v.next_poem();
        }
        assert_eq!(v.current_index(), start);
        for _ in 0..3 {
            v.next_poem();
        }
        assert_eq!(v.current_index(), start);
    }
}

#[test]
fn left_steps_come_back_after_a_full_cycle() {
    for start in 0..3 {
        let mut v = three();
        for _ in 0..start {
            v.next_poem();
        }
        for _ in 0..3 {
            v.prev_poem();
        }
        assert_eq!(v.current_index(), start);
    }
}

#[test]
fn left_from_first_goes_to_last_and_right_from_last_to_first() {
    let mut v = three();
    v.prev_poem();
    assert_eq!(v.current_index(), 2);
    v.next_poem();
    assert_eq!(v.current_index(), 0);
}

#[test]
fn single_document_stays_put() {
    let mut v = PoemViewer::from_files(files(&[("only.txt", "x")]));
    v.next_poem();
    assert_eq!(v.current_index(), 0);
    v.prev_poem();
    assert_eq!(v.current_index(), 0);
}

#[test]
fn titles_sort_bytewise_with_uppercase_first() {
    let v = PoemViewer::from_files(files(&[("b.txt", "bee"), ("A.txt", "ay"), ("c.txt", "sea")]));
    assert_eq!(titles(&v), vec!["A", "b", "c"]);
    assert_eq!(v.content(0), "ay");
    assert_eq!(v.content(1), "bee");
    assert_eq!(v.content(2), "sea");
    assert_eq!(v.current_index(), 0);
}

#[test]
fn only_text_files_are_kept() {
    let v = PoemViewer::from_files(files(&[("note.md", "not me"), ("poem.txt", "me")]));
    assert_eq!(titles(&v), vec!["poem"]);
    assert_eq!(v.content(0), "me");
}

#[test]
fn empty_collection_navigation_is_harmless() {
    let mut v = PoemViewer::from_files(Vec::new());
    assert!(v.is_empty());
    v.next_poem();
    v.prev_poem();
    assert_eq!(v.handle_key(Key::Right, true), Action::Redraw);
    assert_eq!(v.handle_key(Key::Left, true), Action::Redraw);
    assert!(v.is_empty());
    assert_eq!(v.len(), 0);
    assert_eq!(v.current_index(), 0);
}

#[test]
fn empty_screen_shows_only_the_message() {
    let v = PoemViewer::from_files(Vec::new());
    assert_eq!(
        v.render(),
        vec![
            Piece::ClearScreen,
            Piece::ClearScrollback,
            Piece::MoveHome,
            Piece::Line("No poems found in ./poems directory".to_string()),
        ]
    );
}

#[test]
fn screen_shows_body_and_footer_with_status() {
    let mut v = three();
    v.next_poem();
    let rule = "=======================================".to_string();
    assert_eq!(
        v.render(),
        vec![
            Piece::ClearScreen,
            Piece::ClearScrollback,
            Piece::MoveHome,
            Piece::BodyColor,
            Piece::Line("two".to_string()),
            Piece::ResetColor,
            Piece::Line(String::new()),
            Piece::MutedColor,
            Piece::Line(rule.clone()),
            Piece::Line(" ← → Switch poems | Q to quit".to_string()),
            Piece::Line(" B (2/3)".to_string()),
            Piece::Line(rule),
            Piece::ResetColor,
        ]
    );
}

#[test]
fn status_line_at_each_index() {
    let mut v = three();
    for i in 0..3 {
        let screen = v.render();
        let expected = format!(" {} ({}/3)", ["A", "B", "C"][i], i + 1);
        assert_eq!(screen[10], Piece::Line(expected));
        v.next_poem();
    }
}

#[test]
fn quit_keys_end_the_session_at_any_cursor() {
    for start in 0..3 {
        for key in [Key::Char('q'), Key::Char('Q'), Key::Esc] {
            let mut v = three();
            for _ in 0..start {
                v.next_poem();
            }
            assert_eq!(v.handle_key(key, true), Action::Quit);
            assert_eq!(v.current_index(), start);
        }
    }
    let mut e = PoemViewer::from_files(Vec::new());
    assert_eq!(e.handle_key(Key::Char('q'), true), Action::Quit);
}

#[test]
fn arrows_move_and_ask_for_redraw() {
    let mut v = three();
    assert_eq!(v.handle_key(Key::Right, true), Action::Redraw);
    assert_eq!(v.current_index(), 1);
    assert_eq!(v.handle_key(Key::Left, true), Action::Redraw);
    assert_eq!(v.handle_key(Key::Left, true), Action::Redraw);
    assert_eq!(v.current_index(), 2);
}

#[test]
fn releases_and_other_keys_are_ignored() {
    let mut v = three();
    assert_eq!(v.handle_key(Key::Right, false), Action::Wait);
    assert_eq!(v.handle_key(Key::Char('q'), false), Action::Wait);
    assert_eq!(v.handle_key(Key::Char('x'), true), Action::Wait);
    assert_eq!(v.handle_key(Key::Other, true), Action::Wait);
    assert_eq!(v.current_index(), 0);
}

#[test]
fn text_file_names() {
    assert_eq!(title_of("poem.txt"), Some("poem".to_string()));
    assert_eq!(title_of("a.b.txt"), Some("a.b".to_string()));
    assert_eq!(title_of("..txt"), Some(".".to_string()));
    assert_eq!(title_of(".txt"), None);
    assert_eq!(title_of("poem.TXT"), None);
    assert_eq!(title_of("poem.txt.md"), None);
    assert_eq!(title_of("txt"), None);
    assert_eq!(title_of(""), None);
}

#[test]
fn title_order() {
    assert!(title_le_exec("A", "b"));
    assert!(!title_le_exec("b", "A"));
    assert!(title_le_exec("a", "ab"));
    assert!(!title_le_exec("ab", "a"));
    assert!(title_le_exec("", ""));
    assert!(title_le_exec("same", "same"));
    assert!(title_le_exec("Z", "a"));
}

#[test]
fn decimal_numbers() {
    assert_eq!(decimal(0), "0");
    assert_eq!(decimal(7), "7");
    assert_eq!(decimal(10), "10");
    assert_eq!(decimal(12345), "12345");
    assert_eq!(decimal(usize::MAX), usize::MAX.to_string());
}

#[test]
fn status_lines() {
    assert_eq!(format_status("POEM", 3, 12), " POEM (3/12)");
    assert_eq!(status_line("poem", 2, 12), " POEM (3/12)");
    assert_eq!(status_line("straße", 0, 1), " STRASSE (1/1)");
}
