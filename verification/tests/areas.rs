use adele::area::{content, field_content, new_textarea, press_key, textarea_with, Area};
use adele::keys::{KeyCode, KeyEvent, KeyEventKind, KeyModifiers};
use adele::voice::{speak_text, Speaker};

fn none() -> KeyModifiers {
    KeyModifiers {
        shift: false,
        control: false,
        alt: false,
        meta: false,
        super_key: false,
        hyper: false,
    }
}

fn press(area: &mut Area, code: KeyCode, modifiers: KeyModifiers) {
    press_key(area, KeyEvent { code, modifiers, kind: KeyEventKind::Press });
}

fn plain(area: &mut Area, code: KeyCode) {
    press(area, code, none());
}

fn control(area: &mut Area, c: char) {
    press(area, KeyCode::Char(c), KeyModifiers { control: true, ..none() });
}

fn alt(area: &mut Area, c: char) {
    press(area, KeyCode::Char(c), KeyModifiers { alt: true, ..none() });
}

#[test]
fn an_area_of_no_lines_has_one_empty_line() {
    let area = Area::from_lines(vec![]);
    assert_eq!(area.lines(), vec![String::new()]);
    assert_eq!(area.cursor(), (0, 0));
}

#[test]
fn inserted_text_breaks_at_line_feeds_and_drops_carriage_returns() {
    let mut area = Area::from_lines(vec!["ab".to_string(), "cd".to_string()]);
    area.insert_str("x\r\ny\rz\r");
    assert_eq!(area.lines(), vec!["x".to_string(), "y\rzab".to_string(), "cd".to_string()]);
    assert_eq!(area.cursor(), (1, 3));
    area.insert_newline();
    assert_eq!(content(&area), "x\ny\rz\nab\ncd");
    assert_eq!(area.cursor(), (2, 0));
    assert_eq!(field_content(&area), "xy\rzabcd");
}

#[test]
fn typing_and_erasing_is_undone() {
    let mut area = textarea_with("one\ntwo");
    assert_eq!(area.cursor(), (1, 3));
    plain(&mut area, KeyCode::Char('é'));
    assert_eq!(content(&area), "one\ntwoé");
    assert_eq!(area.cursor(), (1, 4));
    plain(&mut area, KeyCode::Backspace);
    assert_eq!(content(&area), "one\ntwo");
    plain(&mut area, KeyCode::Enter);
    assert_eq!(area.lines().len(), 3);
    control(&mut area, 'h');
    assert_eq!(content(&area), "one\ntwo");
    assert_eq!(area.cursor(), (1, 3));
    control(&mut area, 'm');
    assert_eq!(area.cursor(), (2, 0));
}

#[test]
fn erasing_at_the_start_joins_lines_or_does_nothing() {
    let mut area = textarea_with("ab\ncd");
    plain(&mut area, KeyCode::Home);
    assert_eq!(area.cursor(), (1, 0));
    plain(&mut area, KeyCode::Backspace);
    assert_eq!(content(&area), "abcd");
    assert_eq!(area.cursor(), (0, 2));
    control(&mut area, 'a');
    plain(&mut area, KeyCode::Backspace);
    assert_eq!(content(&area), "abcd");
    assert_eq!(area.cursor(), (0, 0));
    plain(&mut area, KeyCode::End);
    assert_eq!(area.cursor(), (0, 4));
    control(&mut area, 'a');
    control(&mut area, 'e');
    assert_eq!(area.cursor(), (0, 4));
}

#[test]
fn moving_keys_keep_the_text() {
    let text = "ab cd\n\nef";
    let codes = [
        KeyCode::Left,
        KeyCode::Right,
        KeyCode::Up,
        KeyCode::Down,
        KeyCode::PageUp,
        KeyCode::PageDown,
        KeyCode::Home,
        KeyCode::End,
    ];
    let all = [
        none(),
        KeyModifiers { control: true, ..none() },
        KeyModifiers { alt: true, ..none() },
        KeyModifiers { shift: true, ..none() },
        KeyModifiers { control: true, alt: true, ..none() },
    ];
    for code in codes {
        for modifiers in all {
            let mut area = textarea_with(text);
            press(&mut area, code, modifiers);
            assert_eq!(content(&area), text, "{code:?} {modifiers:?}");
        }
    }
    for c in ['n', 'p', 'f', 'b', 'v', 'c'] {
        let mut area = textarea_with(text);
        control(&mut area, c);
        assert_eq!(content(&area), text, "control {c}");
    }
    for c in ['<', '>', 'f', 'b', ']', 'n', '[', 'p', 'v'] {
        let mut area = textarea_with(text);
        alt(&mut area, c);
        assert_eq!(content(&area), text, "alt {c}");
    }
}

#[test]
fn keys_without_a_meaning_change_nothing() {
    let mut area = textarea_with("ab");
    for code in [KeyCode::Esc, KeyCode::F(3), KeyCode::Other] {
        plain(&mut area, code);
    }
    control(&mut area, 'z');
    alt(&mut area, 'z');
    press(&mut area, KeyCode::Backspace, KeyModifiers { control: true, ..none() });
    press_key(
        &mut area,
        KeyEvent { code: KeyCode::Char('x'), modifiers: none(), kind: KeyEventKind::Release },
    );
    assert_eq!(content(&area), "ab");
    assert_eq!(area.cursor(), (0, 2));
}

#[test]
fn a_new_area_is_empty() {
    let area = new_textarea();
    assert_eq!(content(&area), "");
    assert_eq!(area.cursor(), (0, 0));
}

fn sentences() -> Vec<String> {
    vec!["One.".to_string(), "Two.".to_string(), "Three.".to_string()]
}

#[test]
fn the_daemon_speaks_before_the_embedded_engine() {
    let utterance = speak_text(sentences(), true, true);
    assert_eq!(utterance.next(), Some((Speaker::Daemon, "One.")));
    let utterance = speak_text(sentences(), false, true);
    assert_eq!(utterance.next(), Some((Speaker::Embedded, "One.")));
    let utterance = speak_text(sentences(), false, false);
    assert_eq!(utterance.next(), None);
    let utterance = speak_text(vec![], true, false);
    assert_eq!(utterance.next(), None);
}

#[test]
fn sentences_are_spoken_in_order_until_one_fails() {
    let mut utterance = speak_text(sentences(), true, false);
    let mut heard = Vec::new();
    while let Some((_, sentence)) = utterance.next() {
        heard.push(sentence.to_string());
        utterance.said(true);
    }
    assert_eq!(heard, sentences());

    let mut utterance = speak_text(sentences(), false, true);
    utterance.said(true);
    assert_eq!(utterance.next(), Some((Speaker::Embedded, "Two.")));
    utterance.said(false);
    assert_eq!(utterance.next(), None);
}

#[test]
fn the_line_is_cut_at_the_cursor() {
    let mut area = textarea_with("abcd\nef");
    plain(&mut area, KeyCode::Left);
    assert_eq!(area.cursor(), (1, 1));
    control(&mut area, 'k');
    assert_eq!(content(&area), "abcd\ne");
    assert_eq!(area.cursor(), (1, 1));
    control(&mut area, 'k');
    assert_eq!(content(&area), "abcd\ne");
    control(&mut area, 'j');
    assert_eq!(content(&area), "abcd\n");
    assert_eq!(area.cursor(), (1, 0));
    control(&mut area, 'j');
    assert_eq!(content(&area), "abcd");
    assert_eq!(area.cursor(), (0, 4));
    for _ in 0..3 {
        plain(&mut area, KeyCode::Left);
    }
    control(&mut area, 'j');
    assert_eq!(content(&area), "bcd");
    assert_eq!(area.cursor(), (0, 0));
    control(&mut area, 'k');
    assert_eq!(content(&area), "");
}

#[test]
fn cutting_at_the_end_of_a_line_joins_the_next() {
    let mut area = Area::from_lines(vec!["一".to_string(), "b".to_string()]);
    plain(&mut area, KeyCode::End);
    control(&mut area, 'k');
    assert_eq!(content(&area), "一b");
    assert_eq!(area.cursor(), (0, 1));
}

#[test]
fn delete_takes_what_is_behind_the_cursor() {
    let mut area = Area::from_lines(vec!["ab".to_string(), "c".to_string()]);
    plain(&mut area, KeyCode::Delete);
    assert_eq!(content(&area), "b\nc");
    assert_eq!(area.cursor(), (0, 0));
    plain(&mut area, KeyCode::Right);
    assert_eq!(area.cursor(), (0, 1));
    plain(&mut area, KeyCode::Delete);
    assert_eq!(content(&area), "bc");
    assert_eq!(area.cursor(), (0, 1));
    control(&mut area, 'd');
    control(&mut area, 'd');
    assert_eq!(content(&area), "b");
    press(&mut area, KeyCode::Delete, KeyModifiers { control: true, ..none() });
    assert_eq!(content(&area), "b");
}

#[test]
fn left_and_right_cross_line_ends() {
    let mut area = Area::from_lines(vec!["a".to_string(), "b".to_string()]);
    plain(&mut area, KeyCode::Left);
    assert_eq!(area.cursor(), (0, 0));
    control(&mut area, 'f');
    assert_eq!(area.cursor(), (0, 1));
    plain(&mut area, KeyCode::Right);
    assert_eq!(area.cursor(), (1, 0));
    plain(&mut area, KeyCode::Left);
    assert_eq!(area.cursor(), (0, 1));
    control(&mut area, 'b');
    assert_eq!(area.cursor(), (0, 0));
}

#[test]
fn an_area_has_no_mask_of_its_own() {
    let mut area = textarea_with("abc");
    assert_eq!(area.mask(), None);
    plain(&mut area, KeyCode::Char('d'));
    assert_eq!(area.mask(), None);
    assert_eq!(new_textarea().mask(), None);
}

fn shifted(area: &mut Area, code: KeyCode) {
    press(area, code, KeyModifiers { shift: true, ..none() });
}

#[test]
fn up_and_down_keep_the_column_within_the_line() {
    let mut area = textarea_with("abcd\nx\nefgh");
    plain(&mut area, KeyCode::Left);
    assert_eq!(area.cursor(), (2, 3));
    plain(&mut area, KeyCode::Up);
    assert_eq!(area.cursor(), (1, 1));
    control(&mut area, 'p');
    assert_eq!(area.cursor(), (0, 1));
    plain(&mut area, KeyCode::Up);
    assert_eq!(area.cursor(), (0, 1));
    plain(&mut area, KeyCode::Char('!'));
    assert_eq!(content(&area), "a!bcd\nx\nefgh");
    plain(&mut area, KeyCode::Down);
    assert_eq!(area.cursor(), (1, 1));
    control(&mut area, 'n');
    plain(&mut area, KeyCode::Down);
    assert_eq!(area.cursor(), (2, 1));
}

#[test]
fn tab_fills_up_to_the_next_stop() {
    let mut area = textarea_with("ab");
    plain(&mut area, KeyCode::Tab);
    assert_eq!(content(&area), "ab  ");
    plain(&mut area, KeyCode::BackTab);
    assert_eq!(content(&area), "ab      ");
    assert_eq!(area.cursor(), (0, 8));
    press(&mut area, KeyCode::Tab, KeyModifiers { control: true, ..none() });
    assert_eq!(content(&area), "ab      ");
}

#[test]
fn typing_takes_the_place_of_the_selection() {
    let mut area = textarea_with("one\ntwo\nthree");
    shifted(&mut area, KeyCode::Up);
    shifted(&mut area, KeyCode::Up);
    shifted(&mut area, KeyCode::Left);
    assert_eq!(area.cursor(), (0, 2));
    plain(&mut area, KeyCode::Char('-'));
    assert_eq!(content(&area), "on-");
    assert_eq!(area.cursor(), (0, 3));
    shifted(&mut area, KeyCode::Home);
    area.insert_str("x\ny");
    assert_eq!(content(&area), "x\ny");
    shifted(&mut area, KeyCode::Left);
    area.insert_newline();
    assert_eq!(content(&area), "x\n\n");
    assert_eq!(area.cursor(), (2, 0));
}

#[test]
fn a_deleting_key_only_deletes_the_selection() {
    for code in [KeyCode::Backspace, KeyCode::Delete] {
        let mut area = textarea_with("abc");
        shifted(&mut area, KeyCode::Left);
        plain(&mut area, code);
        assert_eq!(content(&area), "ab");
    }
    for c in ['k', 'j', 'w', 'h', 'd', 'x'] {
        let mut area = textarea_with("abc");
        shifted(&mut area, KeyCode::Left);
        control(&mut area, c);
        assert_eq!(content(&area), "ab", "{c}");
    }
}

#[test]
fn a_plain_move_ends_the_selection() {
    let mut area = textarea_with("abc");
    shifted(&mut area, KeyCode::Left);
    plain(&mut area, KeyCode::Left);
    plain(&mut area, KeyCode::Char('-'));
    assert_eq!(content(&area), "a-bc");
    shifted(&mut area, KeyCode::Right);
    control(&mut area, 'c');
    plain(&mut area, KeyCode::Char('+'));
    assert_eq!(content(&area), "a-b+c");
    control(&mut area, 'y');
    assert_eq!(content(&area), "a-b+bc");
}

#[test]
fn the_same_keys_lead_to_the_same_text() {
    let run = || {
        let mut area = textarea_with("one two, three");
        control(&mut area, 'w');
        control(&mut area, 'u');
        alt(&mut area, 'b');
        alt(&mut area, 'd');
        control(&mut area, 'y');
        control(&mut area, 'r');
        (area.lines(), area.cursor())
    };
    assert_eq!(run(), run());
    assert_eq!(run().0, vec!["one two, three".to_string()]);
}

/// A text area written down plainly, for text of one column a character.
struct Plain {
    lines: Vec<Vec<char>>,
    cursor: (usize, usize),
    anchor: Option<(usize, usize)>,
}

impl Plain {
    fn cut(&mut self) -> bool {
        let Some(place) = self.anchor.take() else { return false };
        if place == self.cursor {
            return false;
        }
        let (from, to) = (place.min(self.cursor), place.max(self.cursor));
        let tail = self.lines[to.0][to.1..].to_vec();
        self.lines[from.0].truncate(from.1);
        self.lines[from.0].extend(tail);
        self.lines.drain(from.0 + 1..=to.0);
        self.cursor = from;
        true
    }

    fn insert(&mut self, c: char) {
        self.cut();
        let (row, col) = self.cursor;
        self.lines[row].insert(col, c);
        self.cursor.1 += 1;
    }

    fn split(&mut self) {
        self.cut();
        let (row, col) = self.cursor;
        let tail = self.lines[row].split_off(col);
        self.lines.insert(row + 1, tail);
        self.cursor = (row + 1, 0);
    }

    fn erase(&mut self) {
        let (row, col) = self.cursor;
        if col > 0 {
            self.lines[row].remove(col - 1);
            self.cursor.1 -= 1;
        } else if row > 0 {
            let tail = self.lines.remove(row);
            self.cursor = (row - 1, self.lines[row - 1].len());
            self.lines[row - 1].extend(tail);
        }
    }

    fn erase_next(&mut self) {
        let (row, col) = self.cursor;
        if col < self.lines[row].len() {
            self.lines[row].remove(col);
        } else if row + 1 < self.lines.len() {
            let tail = self.lines.remove(row + 1);
            self.lines[row].extend(tail);
        }
    }

    fn go(&mut self, target: Option<(usize, usize)>, shift: bool) {
        let Some(place) = target else { return };
        self.anchor = match shift {
            true => Some(self.anchor.unwrap_or(self.cursor)),
            false => None,
        };
        self.cursor = place;
    }

    fn step(&self, code: KeyCode) -> Option<(usize, usize)> {
        let (row, col) = self.cursor;
        let len = |r: usize| self.lines[r].len();
        let last = self.lines.len() - 1;
        match code {
            KeyCode::Right if col < len(row) => Some((row, col + 1)),
            KeyCode::Right if row < last => Some((row + 1, 0)),
            KeyCode::Left if col > 0 => Some((row, col - 1)),
            KeyCode::Left if row > 0 => Some((row - 1, len(row - 1))),
            KeyCode::Up if row > 0 => Some((row - 1, col.min(len(row - 1)))),
            KeyCode::Down if row < last => Some((row + 1, col.min(len(row + 1)))),
            KeyCode::Home => Some((row, 0)),
            KeyCode::End => Some((row, len(row))),
            KeyCode::Char('<') => Some((0, col.min(len(0)))),
            KeyCode::Char('>') => Some((last, col.min(len(last)))),
            _ => None,
        }
    }

    fn control(&mut self, c: char) {
        match c {
            'm' => self.split(),
            'x' => {
                self.cut();
            }
            'c' => self.anchor = None,
            _ => {
                if self.cut() {
                    return;
                }
                let (row, col) = self.cursor;
                match c {
                    'h' => self.erase(),
                    'd' => self.erase_next(),
                    'k' if col < self.lines[row].len() => self.lines[row].truncate(col),
                    'k' => self.erase_next(),
                    _ if col > 0 => {
                        self.lines[row].drain(..col);
                        self.cursor.1 = 0;
                    }
                    _ => self.erase(),
                }
            }
        }
    }
}

#[test]
fn keys_edit_as_a_plain_text_area_does() {
    let moves = [
        KeyCode::Right,
        KeyCode::Left,
        KeyCode::Up,
        KeyCode::Down,
        KeyCode::Home,
        KeyCode::End,
    ];
    let mut seed: u64 = 17;
    let mut next = |n: u64| {
        seed = seed.wrapping_mul(6364136223846793005).wrapping_add(1442695040888963407);
        (seed >> 33) % n
    };
    for _ in 0..60 {
        let mut area = new_textarea();
        let mut model = Plain { lines: vec![vec![]], cursor: (0, 0), anchor: None };
        for _ in 0..400 {
            match next(12) {
                0..=3 => {
                    let c = (b'a' + next(26) as u8) as char;
                    plain(&mut area, KeyCode::Char(c));
                    model.insert(c);
                }
                4 => {
                    plain(&mut area, KeyCode::Enter);
                    model.split();
                }
                5 => {
                    plain(&mut area, KeyCode::Tab);
                    model.cut();
                    for _ in 0..4 - model.cursor.1 % 4 {
                        model.insert(' ');
                    }
                }
                6 => {
                    let c = ['m', 'h', 'd', 'k', 'j', 'x', 'c'][next(7) as usize];
                    control(&mut area, c);
                    model.control(c);
                }
                7 => {
                    let c = ['<', '>'][next(2) as usize];
                    alt(&mut area, c);
                    let place = model.step(KeyCode::Char(c));
                    model.go(place, false);
                }
                n => {
                    let code = moves[next(6) as usize];
                    let shift = n > 9;
                    press(&mut area, code, KeyModifiers { shift, ..none() });
                    let place = model.step(code);
                    model.go(place, shift);
                }
            }
            let lines: Vec<String> = model.lines.iter().map(|l| l.iter().collect()).collect();
            assert_eq!(area.lines(), lines);
            assert_eq!(area.cursor(), model.cursor);
        }
    }
}
