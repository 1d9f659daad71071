use soil_watering::lcd::{
    CellWrite, Lcd, LcdChar, LcdLine, FIRST_LINE_ADDRESS, LINE_WIDTH, MAX_LINE_ADDRESS,
    SECOND_LINE_ADDRESS,
};

fn target(text: &str) -> Vec<char> {
    let mut cells: Vec<char> = text.chars().take(16).collect();
    while cells.len() < 16 {
        cells.push(' ');
    }
    cells
}

fn distance(a: &str, b: &str) -> usize {
    let a = target(a);
    let b = target(b);
    (0..16).filter(|&i| a[i] != b[i]).count()
}

fn shown(cells: Vec<char>) -> String {
    cells.into_iter().collect()
}

#[test]
fn display_geometry() {
    assert_eq!(LINE_WIDTH, 16);
    assert_eq!(FIRST_LINE_ADDRESS, 0x00);
    assert_eq!(SECOND_LINE_ADDRESS, 0x40);
    assert_eq!(MAX_LINE_ADDRESS, 240);
}

#[test]
fn new_line_is_blank() {
    let line = LcdLine::new(0x00);
    assert_eq!(shown(line.text()), "                ");
}

#[test]
fn blank_text_on_a_new_line_writes_nothing() {
    let mut line = LcdLine::new(0x00);
    assert_eq!(line.update(""), vec![]);
    assert_eq!(line.update("   "), vec![]);
    assert_eq!(line.update("                        "), vec![]);
}

#[test]
fn cell_write_is_issued_only_on_change() {
    let mut cell = LcdChar::new(7);
    assert_eq!(cell.write(&' '), None);
    assert_eq!(cell.write(&'A'), Some(CellWrite { pos: 7, ch: 'A' }));
    assert_eq!(cell.write(&'A'), None);
    assert_eq!(cell.write(&'B'), Some(CellWrite { pos: 7, ch: 'B' }));
    assert_eq!(cell.write(&' '), Some(CellWrite { pos: 7, ch: ' ' }));
    assert_eq!(cell.write(&' '), None);
}

#[test]
fn repeated_render_writes_only_once() {
    let mut line = LcdLine::new(0x00);
    let first = line.update("ABC");
    assert_eq!(
        first,
        vec![
            CellWrite { pos: 0, ch: 'A' },
            CellWrite { pos: 1, ch: 'B' },
            CellWrite { pos: 2, ch: 'C' },
        ]
    );
    let second = line.update("ABC");
    assert_eq!(second, vec![]);
    assert_eq!(shown(line.text()), "ABC             ");
}

#[test]
fn long_text_is_cut_after_sixteen_characters() {
    let mut line = LcdLine::new(0x00);
    let writes = line.update("HelloWorldExtraLong");
    assert_eq!(shown(line.text()), "HelloWorldExtraL");
    assert_eq!(writes.len(), 16);
    assert_eq!(writes[15], CellWrite { pos: 15, ch: 'L' });
}

#[test]
fn short_text_is_filled_up_with_spaces() {
    let mut line = LcdLine::new(0x00);
    line.update("HelloWorldExtraLong");
    let writes = line.update("Hi");
    assert_eq!(shown(line.text()), "Hi              ");
    assert_eq!(line.text().len(), 16);
    assert_eq!(writes.len(), 15);
    assert_eq!(writes[0], CellWrite { pos: 1, ch: 'i' });
    assert_eq!(writes[1], CellWrite { pos: 2, ch: ' ' });
    assert_eq!(writes[14], CellWrite { pos: 15, ch: ' ' });
}

#[test]
fn text_of_exactly_sixteen_characters_is_kept() {
    let mut line = LcdLine::new(0x00);
    let writes = line.update("0123456789abcdef");
    assert_eq!(shown(line.text()), "0123456789abcdef");
    assert_eq!(writes.len(), 16);
}

#[test]
fn writes_between_renders_count_the_differing_cells() {
    let texts = [
        "Quite wet(1100)",
        "Quite wet(1101)",
        "Quite dry(1250)",
        "Quite dry(1250)",
        "",
        "Never",
        "0 sec ago",
        "12 sec ago",
        "1 min ago",
        "this text is longer than the line",
        "this text is longer than the line!",
        "that text",
    ];
    let mut line = LcdLine::new(0x00);
    let mut previous = "";
    for text in texts {
        let writes = line.update(text);
        assert_eq!(writes.len(), distance(previous, text));
        assert_eq!(line.text(), target(text));
        previous = text;
    }
}

#[test]
fn writes_carry_the_new_characters_in_rising_order() {
    let mut line = LcdLine::new(0x40);
    line.update("12 sec ago");
    let writes = line.update("13 sec ago!");
    assert_eq!(
        writes,
        vec![CellWrite { pos: 0x41, ch: '3' }, CellWrite { pos: 0x4a, ch: '!' }]
    );
}

#[test]
fn only_the_changed_cell_is_written() {
    let mut line = LcdLine::new(0x00);
    line.update("Quite wet(1100)");
    assert_eq!(line.update("Quite wet(1101)"), vec![CellWrite { pos: 13, ch: '1' }]);
}

#[test]
fn characters_beyond_ascii_take_one_cell_each() {
    let mut line = LcdLine::new(0x00);
    let writes = line.update("5\u{b0}C");
    assert_eq!(
        writes,
        vec![
            CellWrite { pos: 0, ch: '5' },
            CellWrite { pos: 1, ch: '\u{b0}' },
            CellWrite { pos: 2, ch: 'C' },
        ]
    );
}

#[test]
fn line_at_the_highest_address() {
    let mut line = LcdLine::new(MAX_LINE_ADDRESS);
    let writes = line.update("0123456789abcdef");
    assert_eq!(writes[0], CellWrite { pos: 240, ch: '0' });
    assert_eq!(writes[15], CellWrite { pos: 255, ch: 'f' });
}

#[test]
fn first_row_is_addressed_from_zero() {
    let mut lcd = Lcd::new();
    let writes = lcd.update_first_line("0123456789abcdef");
    let positions: Vec<u8> = writes.iter().map(|w| w.pos).collect();
    assert_eq!(positions, (0x00..0x10).collect::<Vec<u8>>());
}

#[test]
fn second_row_is_addressed_from_sixty_four() {
    let mut lcd = Lcd::new();
    let writes = lcd.update_second_line("0123456789abcdef");
    let positions: Vec<u8> = writes.iter().map(|w| w.pos).collect();
    assert_eq!(positions, (0x40..0x50).collect::<Vec<u8>>());
}

#[test]
fn rows_remember_independently() {
    let mut lcd = Lcd::new();
    lcd.update_first_line("ABC");
    assert_eq!(
        lcd.update_second_line("ABC"),
        vec![
            CellWrite { pos: 0x40, ch: 'A' },
            CellWrite { pos: 0x41, ch: 'B' },
            CellWrite { pos: 0x42, ch: 'C' },
        ]
    );
    assert_eq!(lcd.update_first_line("ABC"), vec![]);
    assert_eq!(lcd.update_second_line("ABC"), vec![]);
    assert_eq!(shown(lcd.first_text()), "ABC             ");
    assert_eq!(shown(lcd.second_text()), "ABC             ");
}

#[test]
fn both_rows_are_rendered_upper_row_first() {
    let mut lcd = Lcd::new();
    let writes = lcd.update_two_lines("Hi", "x");
    assert_eq!(
        writes,
        vec![
            CellWrite { pos: 0x00, ch: 'H' },
            CellWrite { pos: 0x01, ch: 'i' },
            CellWrite { pos: 0x40, ch: 'x' },
        ]
    );
    assert_eq!(lcd.update_two_lines("Hi", "x"), vec![]);
    assert_eq!(lcd.update_two_lines("Ho", "x"), vec![CellWrite { pos: 0x01, ch: 'o' }]);
    assert_eq!(lcd.update_two_lines("Ho", "y"), vec![CellWrite { pos: 0x40, ch: 'y' }]);
    assert_eq!(shown(lcd.first_text()), "Ho              ");
    assert_eq!(shown(lcd.second_text()), "y               ");
}

#[test]
fn rendering_never_clears_the_other_row() {
    let mut lcd = Lcd::new();
    lcd.update_two_lines("Quite dry(1250)", "Never");
    let writes = lcd.update_second_line("0 sec ago");
    assert_eq!(writes.len(), distance("Never", "0 sec ago"));
    assert!(writes.iter().all(|w| w.pos >= 0x40 && w.pos < 0x50));
    assert_eq!(shown(lcd.first_text()), "Quite dry(1250) ");
    assert_eq!(shown(lcd.second_text()), "0 sec ago       ");
}
