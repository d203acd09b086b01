use clige::ansi::{foreground_rgb, foreground_xterm, point, background_xterm};
use clige::buffer::{Buffer, GridError, PixelBuffer};
use clige::canvas::{Canvas, CanvasError, Element, ViewError};
use clige::color::{Color, Context, SystemColor};
use clige::pixel::Pixel;
use clige::rect::{Rect, RectError};
use clige::render::{frame, render};
use clige::style::{blank, Style};
use clige::text::{Text, TextBuilder, TextError};
use clige::viewable::Viewable;

fn red() -> Style {
    Style::foreground("31")
}

fn text_of(s: &str, width: usize, x: u16, y: u16) -> Text {
    TextBuilder::new()
        .position(x, y)
        .text(Pixel::colored(&Style::default_colors(), s))
        .build(width)
        .unwrap()
}

fn symbols(rows: &Vec<Vec<Pixel>>) -> Vec<String> {
    rows.iter().map(|r| r.iter().map(|p| p.symbol).collect()).collect()
}

#[test]
fn format_is_empty_for_equal_styles() {
    let a = Style::new("38;5;1", "48;5;2");
    let b = Style::new("38;5;1", "48;5;2");
    assert_eq!(a.format(&b), "");
    assert_eq!(Style::default_colors().format(&Style::default_colors()), "");
}

#[test]
fn format_emits_only_changed_codes() {
    let prev = Style::new("38;5;1", "48;5;2");
    assert_eq!(Style::new("38;5;9", "48;5;2").format(&prev), "\x1b[38;5;9m");
    assert_eq!(Style::new("38;5;1", "48;5;7").format(&prev), "\x1b[48;5;7m");
    assert_eq!(Style::new("38;5;9", "48;5;7").format(&prev), "\x1b[38;5;9;48;5;7m");
}

#[test]
fn format_skips_blank_codes() {
    assert_eq!(red().format(&Style::default_colors()), "\x1b[31m");
    assert_eq!(Style::background("44").format(&Style::default_colors()), "\x1b[44m");
    assert!(blank("  \t"));
    assert!(!blank(" 3"));
}

#[test]
fn resize_discards_content() {
    let mut g = PixelBuffer::new(3, 2);
    g.set(1, 1, Pixel::new(red(), 'x')).unwrap();
    g.resize(4, 3);
    assert_eq!(g.width(), 4);
    assert_eq!(g.height(), 3);
    for y in 0..3 {
        for x in 0..4 {
            let p = g.get(x, y).unwrap();
            assert_eq!(p.symbol, ' ');
            assert!(p.color.same(&Style::default_colors()));
        }
    }
    assert!(g.get(4, 0).is_none());
}

#[test]
fn set_outside_the_grid_fails() {
    let mut g = PixelBuffer::new(2, 2);
    assert_eq!(g.set(2, 0, Pixel::plain('a')), Err(GridError::OutOfBounds));
    assert_eq!(g.set(0, 2, Pixel::plain('a')), Err(GridError::OutOfBounds));
    assert_eq!(g.set(1, 1, Pixel::plain('a')), Ok(()));
    assert_eq!(g.get(1, 1).unwrap().symbol, 'a');
}

#[test]
fn wrapped_rows_concatenate_to_content() {
    let t = text_of("abcdefg", 3, 0, 0);
    assert_eq!(t.height(), 3);
    assert_eq!(symbols(t.view()), vec!["abc", "def", "g"]);
    let t = text_of("abcdef", 3, 0, 0);
    assert_eq!(t.height(), 2);
    let t = text_of("abc", 10, 0, 0);
    assert_eq!(symbols(t.view()), vec!["abc"]);
}

#[test]
fn five_cells_at_width_three() {
    let t = text_of("hello", 3, 0, 0);
    let lens: Vec<usize> = t.view().iter().map(|r| r.len()).collect();
    assert_eq!(lens, vec![3, 2]);
}

#[test]
fn resize_rewraps_and_reports_effective_width() {
    let mut t = text_of("hello", 3, 0, 0);
    assert_eq!(t.resize(2), Ok(2));
    assert_eq!(symbols(t.view()), vec!["he", "ll", "o"]);
    assert_eq!(t.resize(9), Ok(5));
    assert_eq!(symbols(t.view()), vec!["hello"]);
    assert_eq!(t.width(), 9);
    assert_eq!(t.resize(0), Err(TextError::DegenerateWrapWidth));
    assert_eq!(symbols(t.view()), vec!["hello"]);
}

#[test]
fn zero_wrap_width_is_refused() {
    let b = TextBuilder::new().text(Pixel::colored(&Style::default_colors(), "abc"));
    assert!(matches!(b.build(0), Err(TextError::DegenerateWrapWidth)));
    let mut t = Text::new();
    let p = Pixel::colored(&Style::default_colors(), "abc");
    assert_eq!(t.update(p), Err(TextError::DegenerateWrapWidth));
    assert_eq!(t.update(Vec::new()), Ok(()));
}

#[test]
fn update_and_move() {
    let mut t = text_of("abcd", 2, 0, 0);
    t.update(Pixel::colored(&red(), "xyz")).unwrap();
    assert_eq!(symbols(t.view()), vec!["xy", "z"]);
    t.move_to(4, 5);
    assert_eq!(t.position(), (4, 5));
    assert_eq!(symbols(t.view()), vec!["xy", "z"]);
}

#[test]
fn bordered_canvas_has_corners() {
    let c = Canvas::create(0, 0, 5, 3, true, Style::default_colors(), 80, 24).unwrap();
    assert_eq!(c.cell(0, 0).unwrap().symbol, '┌');
    assert_eq!(c.cell(4, 0).unwrap().symbol, '┐');
    assert_eq!(c.cell(0, 2).unwrap().symbol, '└');
    assert_eq!(c.cell(4, 2).unwrap().symbol, '┘');
    assert_eq!(c.cell(2, 0).unwrap().symbol, '─');
    assert_eq!(c.cell(0, 1).unwrap().symbol, '│');
    assert_eq!(c.cell(2, 1).unwrap().symbol, ' ');
    assert_eq!(c.active_width(), 3);
    assert_eq!(c.active_height(), 1);
    assert_eq!(c.width(), 3);
    assert_eq!(c.height(), 1);
    let v = c.view();
    assert_eq!(v.len(), 1);
    assert_eq!(v[0].len(), 3);
}

#[test]
fn canvas_larger_than_terminal_is_refused() {
    let s = Style::default_colors();
    assert!(matches!(
        Canvas::create(0, 0, 81, 10, false, s, 80, 24),
        Err(CanvasError::WidthExceedsTerminal)
    ));
    let s = Style::default_colors();
    assert!(matches!(
        Canvas::create(0, 0, 80, 25, false, s, 80, 24),
        Err(CanvasError::HeightExceedsTerminal)
    ));
}

#[test]
fn three_cells_serialise_with_one_escape() {
    let mut c = Canvas::create(0, 0, 3, 1, false, Style::default_colors(), 80, 24).unwrap();
    c.put(0, 0, Pixel::plain('A')).unwrap();
    c.put(1, 0, Pixel::new(red(), 'B')).unwrap();
    c.put(2, 0, Pixel::new(red(), 'C')).unwrap();
    assert_eq!(c.to_string(), "A\x1b[31mBC");
}

#[test]
fn uniform_grid_has_one_fragment() {
    let mut g = PixelBuffer::new(3, 2);
    for y in 0..2 {
        for x in 0..3 {
            g.set(x, y, Pixel::new(red(), 'x')).unwrap();
        }
    }
    assert_eq!(g.render(), "\x1b[31mxxx\nxxx");
}

#[test]
fn toggling_twice_keeps_the_inside() {
    let mut c = Canvas::create(0, 0, 5, 4, true, red(), 80, 24).unwrap();
    c.put(1, 1, Pixel::plain('q')).unwrap();
    let before = c.view();
    c.toggle_border();
    assert!(!c.is_bordered());
    assert_eq!(c.active_width(), 5);
    assert_eq!(c.active_height(), 4);
    assert_eq!(c.cell(0, 0).unwrap().symbol, ' ');
    assert_eq!(c.cell(2, 2).unwrap().symbol, 'q');
    c.toggle_border();
    assert!(c.is_bordered());
    let after = c.view();
    assert_eq!(symbols(&before), symbols(&after));
    assert_eq!(c.active_width(), 3);
    assert_eq!(c.active_height(), 2);
}

#[test]
fn painting_the_border_twice_changes_nothing() {
    let mut c = Canvas::create(0, 0, 4, 3, true, red(), 80, 24).unwrap();
    let once = c.to_string();
    c.border();
    assert_eq!(c.to_string(), once);
    assert_eq!(once, "\x1b[31m┌──┐\n│\x1b[39;49m  \x1b[31m│\n└──┘");
}

#[test]
fn border_style_can_change() {
    let mut c = Canvas::create(0, 0, 3, 3, true, Style::default_colors(), 80, 24).unwrap();
    c.update_border_style(red());
    assert!(c.cell(0, 0).unwrap().color.same(&red()));
    assert!(c.cell(1, 1).unwrap().color.same(&Style::default_colors()));
}

#[test]
fn put_outside_the_region_fails() {
    let mut c = Canvas::create(0, 0, 4, 4, true, Style::default_colors(), 80, 24).unwrap();
    assert_eq!(c.put(2, 0, Pixel::plain('z')), Err(GridError::OutOfBounds));
    assert_eq!(c.put(0, 1, Pixel::plain('z')), Ok(()));
    assert_eq!(c.cell(1, 2).unwrap().symbol, 'z');
    assert_eq!(c.at(0, 1).unwrap().symbol, 'z');
    assert!(c.at(0, 2).is_none());
}

#[test]
fn render_composites_children_in_order() {
    let mut c = Canvas::create(2, 3, 6, 4, true, Style::default_colors(), 80, 24).unwrap();
    c.put(3, 1, Pixel::plain('#')).unwrap();
    c.append(Element::Text(text_of("abcde", 3, 0, 0)));
    c.append(Element::Text(text_of("XY", 2, 1, 1)));
    render(&mut c);
    assert_eq!(symbols(&c.view()), vec!["abc ", "dXY "]);
    let f = frame(&mut c);
    assert_eq!(f, "\x1b[3;2H┌────┐\n│abc │\n│dXY │\n└────┘");
}

#[test]
fn render_clips_children_at_the_region() {
    let mut c = Canvas::create(0, 0, 3, 2, false, Style::default_colors(), 80, 24).unwrap();
    c.append(Element::Text(text_of("abcdef", 6, 1, 1)));
    c.render();
    assert_eq!(c.to_string(), "   \n ab");
}

#[test]
fn children_are_found_by_structure() {
    let mut c = Canvas::create(0, 0, 5, 5, false, Style::default_colors(), 80, 24).unwrap();
    c.append(Element::Text(text_of("one", 3, 0, 0)));
    c.append(Element::Text(text_of("two", 3, 0, 1)));
    let inner = Canvas::create(1, 1, 2, 2, true, Style::default_colors(), 80, 24).unwrap();
    c.append(Element::Canvas(Box::new(inner)));
    assert_eq!(c.len(), 3);
    let probe = Element::Text(text_of("two", 3, 0, 1));
    let removed = c.remove(&probe).unwrap();
    assert!(removed.same(&probe));
    assert_eq!(c.len(), 2);
    assert!(matches!(c.remove(&probe), Err(CanvasError::ChildNotFound)));
    let inner_probe = Canvas::create(1, 1, 2, 2, true, Style::default_colors(), 80, 24).unwrap();
    assert!(c.remove(&Element::Canvas(Box::new(inner_probe))).is_ok());
    assert_eq!(c.len(), 1);
    assert!(c.get(0).is_some());
    assert!(c.get(1).is_none());
}

#[test]
fn child_kinds() {
    let t = Element::Text(text_of("ab", 2, 0, 0));
    assert!(t.to_text().is_ok());
    assert_eq!(t.to_canvas().err(), Some(ViewError::NotCanvas));
    let inner = Canvas::create(0, 0, 2, 2, false, Style::default_colors(), 80, 24).unwrap();
    let c = Element::Canvas(Box::new(inner));
    assert!(c.to_canvas().is_ok());
    assert_eq!(c.to_text().err(), Some(ViewError::NotText));
}

#[test]
fn terminal_sized_canvas() {
    let c = Canvas::new(false, 10, 4);
    assert_eq!(c.grid_width(), 10);
    assert_eq!(c.grid_height(), 4);
    assert_eq!(c.position(), (0, 0));
}

#[test]
fn pixel_format_and_colored() {
    let p = Pixel::new(red(), 'k');
    assert_eq!(p.format(&Style::default_colors()), "\x1b[31mk");
    assert_eq!(p.format(&red()), "k");
    let v = Pixel::colored(&red(), "hé!");
    assert_eq!(v.len(), 3);
    assert_eq!(v[1].symbol, 'é');
}

#[test]
fn escape_sequences() {
    assert_eq!(point(3, 17), "\x1b[17;3H");
    assert_eq!(point(0, 0), "\x1b[0;0H");
    assert_eq!(foreground_xterm(196), "\x1b[38;5;196m");
    assert_eq!(background_xterm(7), "\x1b[48;5;7m");
    assert_eq!(foreground_rgb(255, 0, 10), "\x1b[38;2;255;0;10m");
}

#[test]
fn colors() {
    assert_eq!(SystemColor::Cyan.color(), 6);
    assert_eq!(Color::xterm(42, Context::Foreground).escape(), "\x1b[38;5;42m");
    assert_eq!(Color::xterm(42, Context::Background).escape(), "\x1b[48;5;42m");
    assert_eq!(Color::rgb(1, 2, 3, Context::Solid).escape(), "\x1b[38;2;1;2;3;48;2;1;2;3m");
    assert_eq!(Color::system(SystemColor::Red, Context::Solid).escape(), "\x1b[31;41m");
    assert_eq!(Color::default_colors().escape(), "\x1b[39;49m");
    assert_eq!(Color::fg("1".to_string()).escape(), "\x1b[1m");
    let s = Color::system(SystemColor::Blue, Context::Background).to_style();
    assert_eq!(s.foreground, "");
    assert_eq!(s.background, "44");
}

#[test]
fn rects() {
    assert_eq!(Rect::new(), Rect { left: 0, top: 0, right: 0, bottom: 0 });
    let r = Rect::from_points(&vec![1, 2, 7, 9]).unwrap();
    assert_eq!(r.width(), 6);
    assert_eq!(r.height(), 7);
    assert_eq!(Rect::from_points(&vec![4]).unwrap().left, 4);
    assert_eq!(Rect::from_points(&vec![4, 5]).unwrap(), Rect { left: 0, top: 0, right: 4, bottom: 5 });
    assert_eq!(Rect::from_points(&vec![1, 2, 3]), Err(RectError::BadPointCount));
    let mut r = Rect { left: 2, top: 1, right: 30, bottom: 40 };
    r.clamp(10, 20);
    assert_eq!(r, Rect { left: 2, top: 1, right: 10, bottom: 20 });
}

#[test]
fn text_as_string_and_equality() {
    let t = text_of("wrap me", 3, 0, 0);
    assert_eq!(t.to_string(), "wrap me");
    assert_eq!(Pixel::default(), Pixel::fill());
    assert_eq!(Pixel::default().symbol, ' ');
    assert_eq!(Style::default(), Style::new("39", "49"));
    assert!(Pixel::plain('a') != Pixel::new(red(), 'a'));
}

#[test]
fn cells_can_be_written_in_place() {
    let mut g = PixelBuffer::new(3, 2);
    *g.get_mut(2, 1).unwrap() = Pixel::new(red(), 'm');
    assert!(g.get_mut(3, 1).is_none());
    assert_eq!(g.get(2, 1).unwrap().symbol, 'm');
    assert_eq!(g.render(), "   \n  \x1b[31mm");
}

fn fill_with<B: Buffer>(b: &mut B, make: impl Fn() -> B::Pixel) -> usize {
    let mut written = 0;
    for y in 0..b.height() + 1 {
        for x in 0..b.width() + 1 {
            if b.set(x, y, make()).is_ok() {
                written += 1;
            }
        }
    }
    written
}

#[test]
fn buffers_through_the_trait() {
    let mut g = <PixelBuffer as Buffer>::new(2, 2);
    assert_eq!(fill_with(&mut g, || Pixel::plain('o')), 4);
    assert_eq!(Buffer::render(&g), "oo\noo");
    Buffer::resize(&mut g, 1, 1);
    assert_eq!(Buffer::render(&g), " ");
    assert!(Buffer::get(&g, 1, 0).is_none());
}

#[test]
fn children_from_texts_and_canvases() {
    let mut c = Canvas::create(0, 0, 4, 2, false, Style::default_colors(), 80, 24).unwrap();
    c.append(Element::from(text_of("hi", 2, 1, 0)));
    let inner = Canvas::create(0, 0, 1, 1, false, Style::default_colors(), 80, 24).unwrap();
    c.append(inner.into());
    assert!(c.get(0).unwrap().to_text().is_ok());
    assert!(c.get(1).unwrap().to_canvas().is_ok());
    c.render();
    assert_eq!(c.to_string(), " hi \n    ");
}
