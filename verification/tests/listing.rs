use asdf_installer::listing::{parse_plugins, read_listing, DecodeError, Plugin};

fn plugin(name: &str, url: &str) -> Plugin {
    Plugin { name: name.to_string(), url: url.to_string() }
}

#[test]
fn one_line_yields_one_plugin() {
    assert_eq!(
        parse_plugins("nodejs https://example.com/node"),
        vec![plugin("nodejs", "https://example.com/node")]
    );
}

#[test]
fn line_without_blank_is_dropped() {
    assert_eq!(parse_plugins("onlyname"), Vec::<Plugin>::new());
    assert_eq!(
        parse_plugins("onlyname\nruby https://example.com/ruby\nother"),
        vec![plugin("ruby", "https://example.com/ruby")]
    );
}

#[test]
fn empty_listing_yields_no_plugin() {
    assert_eq!(parse_plugins(""), Vec::<Plugin>::new());
    assert_eq!(read_listing(Vec::new()), Ok(Vec::new()));
}

#[test]
fn plugins_come_in_line_order() {
    let text = "zig https://z\nada https://a\nzig https://z\nmint https://m\n";
    assert_eq!(
        parse_plugins(text),
        vec![
            plugin("zig", "https://z"),
            plugin("ada", "https://a"),
            plugin("zig", "https://z"),
            plugin("mint", "https://m"),
        ]
    );
}

#[test]
fn parsing_splits_at_a_line_feed() {
    let head = "a 1\nb\nc 3";
    let tail = "d 4\n\ne 5";
    let whole = format!("{}\n{}", head, tail);
    let mut parts = parse_plugins(&format!("{}\n", head));
    parts.extend(parse_plugins(tail));
    assert_eq!(parse_plugins(&whole), parts);
    assert_eq!(parts.len(), 4);
}

#[test]
fn run_of_blanks_separates_the_fields() {
    assert_eq!(
        parse_plugins("nodejs          https://github.com/asdf-vm/asdf-nodejs.git"),
        vec![plugin("nodejs", "https://github.com/asdf-vm/asdf-nodejs.git")]
    );
    assert_eq!(parse_plugins("a\t \u{3000}b"), vec![plugin("a", "b")]);
}

#[test]
fn url_is_the_rest_of_the_line() {
    assert_eq!(parse_plugins("name first second  third "), vec![plugin("name", "first second  third ")]);
}

#[test]
fn blank_at_the_end_leaves_an_empty_url() {
    assert_eq!(parse_plugins("name "), vec![plugin("name", "")]);
    assert_eq!(parse_plugins("name \t \n"), vec![plugin("name", "")]);
}

#[test]
fn blank_at_the_start_leaves_an_empty_name() {
    assert_eq!(parse_plugins(" url"), vec![plugin("", "url")]);
    assert_eq!(parse_plugins("   a b"), vec![plugin("", "a b")]);
    assert_eq!(parse_plugins(" "), vec![plugin("", "")]);
}

#[test]
fn empty_lines_are_dropped() {
    assert_eq!(parse_plugins("\n\n"), Vec::<Plugin>::new());
    assert_eq!(parse_plugins("\na 1\n\n\nb 2\n\n"), vec![plugin("a", "1"), plugin("b", "2")]);
}

#[test]
fn last_line_need_not_be_ended() {
    assert_eq!(parse_plugins("a 1\nb 2"), vec![plugin("a", "1"), plugin("b", "2")]);
    assert_eq!(parse_plugins("a 1\nb 2\n"), vec![plugin("a", "1"), plugin("b", "2")]);
}

#[test]
fn carriage_return_before_line_feed_ends_the_line() {
    assert_eq!(parse_plugins("a 1\r\nb 2\r\n"), vec![plugin("a", "1"), plugin("b", "2")]);
    assert_eq!(parse_plugins("lonely\r\nb 2"), vec![plugin("b", "2")]);
    assert_eq!(parse_plugins("\r\n"), Vec::<Plugin>::new());
}

#[test]
fn only_one_carriage_return_is_taken_off() {
    assert_eq!(parse_plugins("a\r\r\n"), vec![plugin("a", "")]);
    assert_eq!(parse_plugins("a 1\r\r\n"), vec![plugin("a", "1\r")]);
}

#[test]
fn carriage_return_elsewhere_is_a_blank() {
    assert_eq!(parse_plugins("a\rb"), vec![plugin("a", "b")]);
    assert_eq!(parse_plugins("a 1\r"), vec![plugin("a", "1\r")]);
    assert_eq!(parse_plugins("name\r"), vec![plugin("name", "")]);
}

#[test]
fn lines_are_cut_as_str_lines_cuts_them() {
    for text in ["", "\n", "a b\r\n", "a b\r", "a\r\n\r\nb c", "x y\n\nz w\n", "\r\n\r", "a\u{2028}b\nc d"] {
        let by_lines: Vec<Plugin> = text
            .lines()
            .flat_map(|line| parse_plugins(line))
            .collect();
        assert_eq!(parse_plugins(text), by_lines, "{:?}", text);
    }
}

#[test]
fn characters_beyond_ascii_are_kept() {
    assert_eq!(parse_plugins("名前 https://例え.jp/パス"), vec![plugin("名前", "https://例え.jp/パス")]);
}

#[test]
fn read_listing_decodes_then_parses() {
    let output = "nodejs https://example.com/node\nruby   https://example.com/ruby\n".as_bytes().to_vec();
    assert_eq!(
        read_listing(output),
        Ok(vec![
            plugin("nodejs", "https://example.com/node"),
            plugin("ruby", "https://example.com/ruby"),
        ])
    );
}

#[test]
fn read_listing_decodes_multibyte_text() {
    let output = "名前\u{3000}url\n".as_bytes().to_vec();
    assert_eq!(read_listing(output), Ok(vec![plugin("名前", "url")]));
}

#[test]
fn read_listing_refuses_bytes_that_are_not_utf8() {
    assert_eq!(read_listing(vec![0xFF]), Err(DecodeError));
    assert_eq!(read_listing(vec![b'a', b' ', b'b', b'\n', 0xC3]), Err(DecodeError));
    assert_eq!(read_listing(vec![0xED, 0xA0, 0x80]), Err(DecodeError));
    assert_eq!(read_listing(vec![0xC0, 0x80]), Err(DecodeError));
}

#[test]
fn read_listing_takes_nothing_from_a_listing_with_one_bad_byte() {
    let mut output = "a 1\nb 2\n".as_bytes().to_vec();
    output.push(0x80);
    assert_eq!(read_listing(output), Err(DecodeError));
}

#[test]
fn from_line_reads_name_and_url() {
    assert_eq!(
        Plugin::from_line("nodejs https://example.com/node"),
        Some(plugin("nodejs", "https://example.com/node"))
    );
    assert_eq!(Plugin::from_line("a \t b c"), Some(plugin("a", "b c")));
}

#[test]
fn from_line_finds_nothing_without_a_blank() {
    assert_eq!(Plugin::from_line("onlyname"), None);
    assert_eq!(Plugin::from_line(""), None);
}

#[test]
fn parsing_agrees_with_a_model_on_all_short_texts() {
    let alphabet = ['a', 'b', ' ', '\t', '\r', '\n', '\u{3000}'];
    let mut texts: Vec<String> = vec![String::new()];
    let mut from = 0;
    for _ in 0..5 {
        let upto = texts.len();
        for i in from..upto {
            for c in alphabet {
                let mut longer = texts[i].clone();
                longer.push(c);
                texts.push(longer);
            }
        }
        from = upto;
    }
    assert_eq!(texts.len(), 1 + 7 + 49 + 343 + 2401 + 16807);
    for text in &texts {
        let model: Vec<Plugin> = text
            .lines()
            .filter_map(|line| {
                let gap = line.find(char::is_whitespace)?;
                Some(plugin(&line[..gap], line[gap..].trim_start()))
            })
            .collect();
        assert_eq!(&parse_plugins(text), &model, "{:?}", text);
    }
}
