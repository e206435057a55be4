//! The plugin listing: what the tool prints when asked for every plugin it
//! knows, and the plugins read from it.

use crate::text::{
    characters, is_blank, lemma_until_found, lemma_until_is, lines_of, scan, string_of, until,
    without_return, Mark,
};
use vstd::prelude::*;
use vstd::utf8::*;

verus! {

/// An installable unit that the tool manages: its name, and where it is
/// fetched from.
#[derive(Clone, Debug, PartialEq, Eq)]
pub struct Plugin {
    pub name: String,
    pub url: String,
}

/// A plugin as contracts speak of it.
pub struct PluginView {
    pub name: Seq<char>,
    pub url: Seq<char>,
}

impl View for Plugin {
    type V = PluginView;

    open spec fn view(&self) -> PluginView {
        PluginView { name: self.name@, url: self.url@ }
    }
}

/// The views of `plugins`, in order.
pub open spec fn plugin_views(plugins: Seq<Plugin>) -> Seq<PluginView> {
    plugins.map_values(|p: Plugin| p@)
}

/// The listing was not text: its bytes are not well-formed UTF-8.
#[derive(Clone, Copy, Debug, PartialEq, Eq)]
pub struct DecodeError;

/// The plugin that a line of the listing names. The name is what stands
/// before the first blank; the URL is what follows the run of blanks that
/// begins there, to the end of the line, and may be empty. A line without a
/// blank names no plugin.
pub open spec fn parse_line(line: Seq<char>) -> Option<PluginView> {
    let gap = until(line, Mark::Blank) as int;
    if gap >= line.len() {
        None
    } else {
        let resume = gap + until(line.skip(gap), Mark::Ink);
        Some(PluginView { name: line.take(gap), url: line.skip(resume) })
    }
}

/// The plugins that `lines` name, in the order of the lines.
pub open spec fn records(lines: Seq<Seq<char>>) -> Seq<PluginView> {
    lines.filter_map(|line: Seq<char>| parse_line(line))
}

/// The plugins that a listing names, in the order of its lines.
pub open spec fn plugins_of(text: Seq<char>) -> Seq<PluginView> {
    records(lines_of(text))
}

/// Reads the line that `chars` holds from `from` up to `to`.
fn record_at(chars: &Vec<char>, from: usize, to: usize) -> (r: Option<Plugin>)
    requires
        from <= to <= chars.len(),
    ensures
        r is Some <==> parse_line(chars@.subrange(from as int, to as int)) is Some,
        r matches Some(p) ==> parse_line(chars@.subrange(from as int, to as int)) == Some(p@),
{
    let gap = scan(chars, from, to, Mark::Blank);
    if gap >= to {
        return None;
    }
    let resume = scan(chars, gap, to, Mark::Ink);
    let name = string_of(chars, from, gap);
    let url = string_of(chars, resume, to);
    proof {
        let line = chars@.subrange(from as int, to as int);
        assert(line.skip(gap - from) == chars@.subrange(gap as int, to as int));
        assert(line.take(gap - from) == chars@.subrange(from as int, gap as int));
        assert(line.skip(resume - from) == chars@.subrange(resume as int, to as int));
    }
    Some(Plugin { name, url })
}

impl Plugin {
    /// Reads the plugin that `line` names, if it names one.
    pub fn from_line(line: &str) -> (r: Option<Plugin>)
        ensures
            r is Some <==> parse_line(line@) is Some,
            r matches Some(p) ==> parse_line(line@) == Some(p@),
    {
        let chars = characters(line);
        assert(chars@.subrange(0, chars@.len() as int) == chars@);
        record_at(&chars, 0, chars.len())
    }
}

/// Reads the plugins that a listing names.
pub fn parse_plugins(text: &str) -> (plugins: Vec<Plugin>)
    ensures
        plugin_views(plugins@) == plugins_of(text@),
{
    let chars = characters(text);
    let n = chars.len();
    let mut plugins: Vec<Plugin> = Vec::new();
    let mut start: usize = 0;
    let ghost mut done: Seq<Seq<char>> = Seq::empty();
    assert(chars@.skip(0) == chars@);
    while start < n
        invariant
            n == chars.len(),
            start <= n,
            chars@ == text@,
            lines_of(text@) == done + lines_of(chars@.skip(start as int)),
            plugin_views(plugins@) == records(done),
        decreases n - start,
    {
        let feed = scan(&chars, start, n, Mark::Feed);
        let ended = feed < n;
        let end = if ended && start < feed && chars[feed - 1] == '\r' {
            feed - 1
        } else {
            feed
        };
        let next = if ended {
            feed + 1
        } else {
            n
        };
        let ghost line = chars@.subrange(start as int, end as int);
        proof {
            let rest = chars@.skip(start as int);
            if ended {
                assert(without_return(rest.take(feed - start)) == line);
                assert(rest.skip(feed - start + 1) == chars@.skip(next as int));
            }
            assert(done.push(line).drop_last() == done);
        }
        match record_at(&chars, start, end) {
            Some(p) => {
                plugins.push(p);
            },
            None => {},
        }
        proof {
            done = done.push(line);
        }
        start = next;
    }
    plugins
}

/// Reads the plugins from what the tool printed. The output must be
/// well-formed UTF-8 as a whole: otherwise nothing is read from it.
pub fn read_listing(output: Vec<u8>) -> (r: Result<Vec<Plugin>, DecodeError>)
    ensures
        r is Ok <==> valid_utf8(output@),
        r matches Ok(plugins) ==> plugin_views(plugins@) == plugins_of(decode_utf8(output@)),
{
    match String::from_utf8(output) {
        Ok(text) => {
            proof {
                encode_utf8_decode_utf8(text@);
            }
            Ok(parse_plugins(text.as_str()))
        },
        Err(_) => Err(DecodeError),
    }
}

/// What a line is made of: a line names a plugin unless it is free of
/// blanks, and then it is the name, which is free of blanks, a run of one or
/// more blanks, and the URL, which does not begin with one.
pub proof fn lemma_line_fields(line: Seq<char>)
    ensures
        parse_line(line) is None <==> forall|i: int|
            0 <= i < line.len() ==> !is_blank(#[trigger] line[i]),
        parse_line(line) matches Some(p) ==> ({
            let run = line.subrange(p.name.len() as int, line.len() - p.url.len());
            &&& run.len() > 0
            &&& line == p.name + run + p.url
            &&& forall|i: int| 0 <= i < p.name.len() ==> !is_blank(#[trigger] p.name[i])
            &&& forall|i: int| 0 <= i < run.len() ==> is_blank(#[trigger] run[i])
            &&& p.url.len() > 0 ==> !is_blank(p.url[0])
        }),
{
    let gap = until(line, Mark::Blank) as int;
    lemma_until_found(line, Mark::Blank);
    if gap < line.len() {
        let rest = line.skip(gap);
        lemma_until_found(rest, Mark::Ink);
        let resume = gap + until(rest, Mark::Ink);
        let run = line.subrange(gap, resume);
        assert(line.subrange(gap, line.len() - line.skip(resume).len()) == run);
        assert(line == line.take(gap) + run + line.skip(resume));
        assert forall|i: int| 0 <= i < run.len() implies is_blank(#[trigger] run[i]) by {
            assert(run[i] == rest[i]);
        }
        assert(rest[0] == line[gap]);
        if line.skip(resume).len() > 0 {
            assert(line.skip(resume)[0] == rest[resume - gap]);
        }
    }
}

/// The plugins of two runs of lines, one after the other, are those of the
/// first run followed by those of the second.
pub proof fn lemma_records_concat(first: Seq<Seq<char>>, second: Seq<Seq<char>>)
    ensures
        records(first + second) == records(first) + records(second),
    decreases second.len(),
{
    if second.len() > 0 {
        assert((first + second).drop_last() == first + second.drop_last());
        lemma_records_concat(first, second.drop_last());
    }
}

/// A line feed parts a text: the lines up to it are read without regard to
/// what follows, and the lines that follow come after them.
pub proof fn lemma_lines_concat(head: Seq<char>, tail: Seq<char>)
    ensures
        lines_of(head + seq!['\n'] + tail) == lines_of(head + seq!['\n']) + lines_of(tail),
    decreases head.len(),
{
    let whole = head + seq!['\n'] + tail;
    let ended = head + seq!['\n'];
    let cut = until(head, Mark::Feed) as int;
    lemma_until_found(head, Mark::Feed);
    assert forall|j: int| 0 <= j < cut implies !Mark::Feed.fits(#[trigger] whole[j]) by {
        assert(whole[j] == head[j]);
    }
    assert forall|j: int| 0 <= j < cut implies !Mark::Feed.fits(#[trigger] ended[j]) by {
        assert(ended[j] == head[j]);
    }
    lemma_until_is(whole, Mark::Feed, cut);
    lemma_until_is(ended, Mark::Feed, cut);
    assert(whole.take(cut) == ended.take(cut));
    if cut < head.len() {
        let rest = head.skip(cut + 1);
        assert(whole.skip(cut + 1) == rest + seq!['\n'] + tail);
        assert(ended.skip(cut + 1) == rest + seq!['\n']);
        lemma_lines_concat(rest, tail);
    } else {
        assert(whole.skip(cut + 1) == tail);
        assert(lines_of(ended.skip(cut + 1)) == Seq::<Seq<char>>::empty());
    }
}

/// Plugins come in the order of their lines: those named before a line feed
/// precede those named after it.
pub proof fn lemma_listing_order(head: Seq<char>, tail: Seq<char>)
    ensures
        plugins_of(head + seq!['\n'] + tail) == plugins_of(head + seq!['\n']) + plugins_of(tail),
{
    lemma_lines_concat(head, tail);
    lemma_records_concat(lines_of(head + seq!['\n']), lines_of(tail));
}

/// The empty output is a listing, and one that names no plugin.
pub proof fn lemma_empty_output_lists_nothing()
    ensures
        valid_utf8(Seq::<u8>::empty()),
        plugins_of(decode_utf8(Seq::<u8>::empty())) == Seq::<PluginView>::empty(),
{
}

/// The index in `lines` of the line that names the plugin at index `k` of
/// `records(lines)`.
pub open spec fn origin(lines: Seq<Seq<char>>, k: int) -> int
    decreases lines.len(),
{
    if lines.len() == 0 {
        -1
    } else if parse_line(lines.last()) is Some && k == records(lines.drop_last()).len() {
        lines.len() - 1
    } else {
        origin(lines.drop_last(), k)
    }
}

/// Every plugin read is the one that its line of origin names; plugins stand
/// in the order of their lines of origin; and every line that names a plugin
/// is the origin of one.
pub proof fn lemma_records_follow_lines(lines: Seq<Seq<char>>)
    ensures
        forall|k: int|
            0 <= k < records(lines).len() ==> 0 <= #[trigger] origin(lines, k) < lines.len()
                && parse_line(lines[origin(lines, k)]) == Some(records(lines)[k]),
        forall|i: int, j: int|
            0 <= i < j < records(lines).len() ==> #[trigger] origin(lines, i) < #[trigger] origin(
                lines,
                j,
            ),
        forall|at: int|
            0 <= at < lines.len() && (#[trigger] parse_line(lines[at])) is Some ==> exists|k: int|
                0 <= k < records(lines).len() && origin(lines, k) == at,
    decreases lines.len(),
{
    if lines.len() > 0 {
        let front = lines.drop_last();
        lemma_records_follow_lines(front);
        assert forall|k: int| 0 <= k < records(lines).len() implies 0 <= #[trigger] origin(
            lines,
            k,
        ) < lines.len() && parse_line(lines[origin(lines, k)]) == Some(records(lines)[k]) by {
            if k < records(front).len() {
                assert(lines[origin(front, k)] == front[origin(front, k)]);
            }
        }
        assert forall|i: int, j: int| 0 <= i < j < records(lines).len() implies #[trigger] origin(
            lines,
            i,
        ) < #[trigger] origin(lines, j) by {
            assert(origin(lines, i) == origin(front, i));
            if j < records(front).len() {
                assert(origin(lines, j) == origin(front, j));
            }
        }
        assert forall|at: int|
            0 <= at < lines.len() && (#[trigger] parse_line(lines[at])) is Some implies exists|
            k: int,
        |
            0 <= k < records(lines).len() && origin(lines, k) == at by {
            if at < front.len() {
                assert(lines[at] == front[at]);
                let k = choose|k: int| 0 <= k < records(front).len() && origin(front, k) == at;
                assert(origin(lines, k) == at);
            } else {
                assert(origin(lines, records(front).len() as int) == at);
            }
        }
    }
}

} // verus!
