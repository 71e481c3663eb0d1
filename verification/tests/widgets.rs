//! Widget and bar behavior over raw samples.

use spectrbar::bar::Bar;
use spectrbar::colorizer::Colorizer;
use spectrbar::data::{Data, WidgetError};
use spectrbar::retrieve::DataRetriever;
use spectrbar::widget::Widget;

#[test]
fn trivial_command_widget() {
    let widget = Widget::new(
        "test",
        DataRetriever::Extern(String::from("hello")),
        Colorizer::Constant(1),
        false,
    );
    let sample = Some(b"Hello, world!\n".to_vec());
    assert_eq!(widget.update(&sample), Ok(Data::Text(String::from("Hello, world!"))))
}

#[test]
fn trivial_text_file_widget() {
    let widget = Widget::new(
        "test",
        DataRetriever::File(String::from("/home/ethan/code/rust/spectrbar/test.txt")),
        Colorizer::Constant(1),
        false,
    );
    let sample = Some(b"hello 32\n".to_vec());
    assert_eq!(widget.update(&sample), Ok(Data::Text(String::from("hello 32"))))
}

#[test]
fn trivial_numeric_file_widget() {
    let widget = Widget::new(
        "test",
        DataRetriever::File(String::from("/home/ethan/code/rust/spectrbar/test.txt")),
        Colorizer::Constant(1),
        true,
    );
    let sample = Some(b"hello 32\n".to_vec());
    assert_eq!(widget.update(&sample), Ok(Data::Number(32)))
}

#[test]
fn nontrivial_text_command_widget() {
    let widget = Widget::new(
        "test",
        DataRetriever::Extern(String::from("echo hello world")),
        Colorizer::Constant(1),
        false,
    );
    let sample = Some(b"hello world\n".to_vec());
    assert_eq!(widget.update(&sample), Ok(Data::Text(String::from("hello world"))))
}

#[test]
fn nontrivial_numeric_command_widget() {
    let widget = Widget::new(
        "test",
        DataRetriever::Extern(String::from("echo hello world 32")),
        Colorizer::Constant(1),
        true,
    );
    let sample = Some(b"hello world 32\n".to_vec());
    assert_eq!(widget.update(&sample), Ok(Data::Number(32)))
}

#[test]
fn trivial_display_bar() {
    let mut bar = Bar::new();
    bar.add_widget(
        "text",
        DataRetriever::File(String::from("/home/ethan/code/rust/spectrbar/test.txt")),
        Colorizer::Constant(1),
        false,
    );
    bar.add_widget(
        "num",
        DataRetriever::File(String::from("/home/ethan/code/rust/spectrbar/test.txt")),
        Colorizer::Binary((0, 1), String::from("31")),
        true,
    );
    let samples = vec![Some(b"hello 32\n".to_vec()), Some(b"hello 32\n".to_vec())];
    assert_eq!(
        bar.render(&samples),
        String::from("text: +@fg=1;hello 32+@fg=0; | num: +@fg=1;32+@fg=0; | ")
    )
}

#[test]
fn unavailable_source_degrades_to_text_placeholder() {
    let widget = Widget::new(
        "test",
        DataRetriever::File(String::from("/no/such/path")),
        Colorizer::Constant(1),
        false,
    );
    assert_eq!(widget.update(&None), Ok(Data::Text(String::new())))
}

#[test]
fn unavailable_source_degrades_to_zero_in_numeric_mode() {
    let widget = Widget::new(
        "test",
        DataRetriever::Extern(String::from("definitely-not-a-program")),
        Colorizer::Constant(1),
        true,
    );
    assert_eq!(widget.update(&None), Ok(Data::Number(0)))
}

#[test]
fn numeric_mode_without_digits_is_an_error() {
    let widget = Widget::new(
        "test",
        DataRetriever::Extern(String::from("echo hello")),
        Colorizer::Constant(1),
        true,
    );
    let sample = Some(b"hello\n".to_vec());
    assert_eq!(widget.update(&sample), Err(WidgetError::NoDigits))
}

#[test]
fn numeric_mode_beyond_range_is_an_error() {
    let widget = Widget::new(
        "test",
        DataRetriever::Extern(String::from("echo 99999999999")),
        Colorizer::Constant(1),
        true,
    );
    let sample = Some(b"99999999999\n".to_vec());
    assert_eq!(widget.update(&sample), Err(WidgetError::OutOfRange))
}

#[test]
fn widget_renders_markup_segment() {
    let widget = Widget::new(
        "cpu",
        DataRetriever::File(String::from("/proc/loadavg")),
        Colorizer::Constant(255),
        false,
    );
    let sample = Some(b"0.42\n".to_vec());
    assert_eq!(widget.render_sample(&sample), Ok(String::from("cpu: +@fg=255;0.42+@fg=0;")))
}

#[test]
fn misconfigured_widget_renders_placeholder_in_bar() {
    let mut bar = Bar::new();
    bar.add_widget(
        "num",
        DataRetriever::File(String::from("/etc/hostname")),
        Colorizer::Constant(1),
        true,
    );
    bar.add_widget(
        "ok",
        DataRetriever::File(String::from("/etc/hostname")),
        Colorizer::Constant(2),
        false,
    );
    let samples = vec![Some(b"no digits here\n".to_vec()), Some(b"fine\n".to_vec())];
    assert_eq!(bar.render(&samples), String::from("num: ? | ok: +@fg=2;fine+@fg=0; | "))
}

#[test]
fn bar_render_appends_segments_in_order() {
    let w1 = Widget::new(
        "a",
        DataRetriever::File(String::from("/tmp/a")),
        Colorizer::Constant(3),
        false,
    );
    let w2 = Widget::new(
        "b",
        DataRetriever::File(String::from("/tmp/b")),
        Colorizer::Constant(4),
        true,
    );
    let s1 = Some(b"one\n".to_vec());
    let s2 = Some(b"2\n".to_vec());
    let mut bar = Bar::new();
    bar.add_widget("a", DataRetriever::File(String::from("/tmp/a")), Colorizer::Constant(3), false);
    bar.add_widget("b", DataRetriever::File(String::from("/tmp/b")), Colorizer::Constant(4), true);
    let samples = vec![s1.clone(), s2.clone()];
    let expected = format!(
        "{} | {} | ",
        w1.render_or_placeholder(&s1),
        w2.render_or_placeholder(&s2)
    );
    assert_eq!(bar.render(&samples), expected)
}

#[test]
fn bar_renders_degraded_values_for_unavailable_sources() {
    let mut bar = Bar::new();
    bar.add_widget(
        "t",
        DataRetriever::File(String::from("/no/such/file")),
        Colorizer::Constant(1),
        false,
    );
    bar.add_widget(
        "n",
        DataRetriever::File(String::from("/no/such/file")),
        Colorizer::Constant(2),
        true,
    );
    let samples = vec![None, None];
    assert_eq!(bar.render(&samples), "t: +@fg=1;+@fg=0; | n: +@fg=2;0+@fg=0; | ")
}

#[test]
fn empty_bar_renders_empty_string() {
    let bar = Bar::new();
    let samples: Vec<Option<Vec<u8>>> = Vec::new();
    assert_eq!(bar.render(&samples), String::new())
}

#[test]
fn trinary_colorizer_partitions_numbers() {
    let c = Colorizer::Trinary((1, 2, 3), 10, 20);
    assert_eq!(c.get_color(&Data::Number(-5)), 1);
    assert_eq!(c.get_color(&Data::Number(9)), 1);
    assert_eq!(c.get_color(&Data::Number(10)), 2);
    assert_eq!(c.get_color(&Data::Number(19)), 2);
    assert_eq!(c.get_color(&Data::Number(20)), 3);
    assert_eq!(c.get_color(&Data::Number(1000)), 3);
    assert_eq!(c.get_color(&Data::Text(String::from("busy"))), 2);
}

#[test]
fn binary_colorizer_compares_rendering_with_null_value() {
    let c = Colorizer::Binary((0, 1), String::from("31"));
    assert_eq!(c.get_color(&Data::Number(31)), 0);
    assert_eq!(c.get_color(&Data::Number(32)), 1);
    assert_eq!(c.get_color(&Data::Text(String::from("31"))), 0);
    assert_eq!(c.get_color(&Data::Text(String::from("idle"))), 1);
}

#[test]
fn constant_colorizer_ignores_data() {
    let c = Colorizer::Constant(7);
    assert_eq!(c.get_color(&Data::Number(0)), 7);
    assert_eq!(c.get_color(&Data::Text(String::from("anything"))), 7);
}
