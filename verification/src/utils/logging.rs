//! What is logged about an error, worked out from where it was seen.

use super::text;
use vstd::prelude::*;

verus! {

/// How serious a logged event is.
#[derive(Clone, Copy, Debug, PartialEq, Eq, Structural)]
pub enum Level {
    Error,
    Warn,
    Info,
    Debug,
    Trace,
}

/// How the compiler that recorded a location writes file paths.
#[derive(Clone, Copy, Debug, PartialEq, Eq, Structural)]
pub enum PathStyle {
    /// Segments are separated by `/` alone.
    Posix,
    /// Segments may also be separated by `\`.
    Windows,
}

/// A place in the source code.
#[derive(Clone, Copy, Debug)]
pub struct Location<'a> {
    pub file: &'a str,
    pub line: u32,
    pub style: PathStyle,
}

/// One event for the logger.
#[derive(Debug)]
pub struct LogRecord<'a, E> {
    pub level: Level,
    pub target: String,
    pub module: Option<String>,
    pub error: E,
    pub file: &'a str,
    pub line: u32,
}

/// The file of a location, with `/` as its only separator.
pub open spec fn slashed(file: Seq<char>, style: PathStyle) -> Seq<char> {
    match style {
        PathStyle::Posix => file,
        PathStyle::Windows => text::replace(file, '\\', seq!['/']),
    }
}

/// All crates reside in a `crates` directory: what follows it up to `/src/` is
/// the crate, and what follows that is the module's file.
pub open spec fn crate_and_module(file: Seq<char>) -> Option<(Seq<char>, Seq<char>)> {
    match text::split_once(file, "crates/"@) {
        Some((_, rest)) => text::split_once(rest, "/src/"@),
        None => None,
    }
}

/// The path of the module whose file is `module`, in the crate `krate`.
pub open spec fn qualified(krate: Seq<char>, module: Seq<char>) -> Seq<char> {
    krate + "::"@ + text::replace(text::trim_end_matches(module, ".rs"@), '/', "::"@)
}

/// The logging target of an error that was seen in `file`: the crate, or nothing
/// where the file belongs to none.
pub open spec fn target_of(file: Seq<char>) -> Seq<char> {
    match crate_and_module(file) {
        Some((krate, _)) => krate,
        None => Seq::empty(),
    }
}

/// The module path of an error that was seen in `file`.
pub open spec fn module_of(file: Seq<char>) -> Option<Seq<char>> {
    match crate_and_module(file) {
        Some((krate, module)) => Some(qualified(krate, module)),
        None => None,
    }
}

/// The characters of an optional string.
pub open spec fn text_of(text: Option<String>) -> Option<Seq<char>> {
    match text {
        Some(text) => Some(text@),
        None => None,
    }
}

impl<'a, E> LogRecord<'a, E> {
    /// Whether this record tells of `error`, seen at `caller`, at the given level.
    pub open spec fn tells(&self, caller: Location<'a>, error: E, level: Level) -> bool {
        &&& self.level == level
        &&& self.error == error
        &&& self.file == caller.file
        &&& self.line == caller.line
        &&& self.target@ == target_of(slashed(caller.file@, caller.style))
        &&& text_of(self.module) == module_of(slashed(caller.file@, caller.style))
    }
}

/// The characters of a location's file, with `/` as its only separator.
fn slashed_file(caller: &Location) -> (file: Vec<char>)
    ensures
        file@ == slashed(caller.file@, caller.style),
{
    let file = text::chars_of(caller.file);
    match caller.style {
        PathStyle::Posix => file,
        PathStyle::Windows => {
            let mut slash: Vec<char> = Vec::new();
            slash.push('/');
            assert(slash@ =~= seq!['/']);
            let mut posix = String::new();
            text::push_replaced(&mut posix, &file, 0, file.len(), '\\', &slash);
            assert(file@.subrange(0, file@.len() as int) =~= file@);
            assert(posix@ =~= text::replace(file@, '\\', seq!['/']));
            text::chars_of(posix.as_str())
        },
    }
}

/// Where the crate's name begins, where it ends, and where the module's file
/// begins, in a file that belongs to a crate.
fn locate(file: &Vec<char>) -> (found: Option<(usize, usize, usize)>)
    ensures
        match found {
            Some((start, end, module)) => start <= end <= module <= file@.len()
                && crate_and_module(file@) == Some(
                (file@.subrange(start as int, end as int), file@.skip(module as int)),
            ),
            None => crate_and_module(file@) is None,
        },
{
    let len: usize = file.len();
    let crates = text::chars_of("crates/");
    let src = text::chars_of("/src/");
    assert(file@.skip(0) =~= file@);
    match text::find_from(file, &crates, 0) {
        None => None,
        Some(at) => {
            assert(at + crates@.len() <= len);
            proof {
                text::lemma_split_at_first(file@, crates@, at as int);
            }
            let start: usize = at + crates.len();
            let ghost rest = file@.skip(start as int);
            match text::find_from(file, &src, start) {
                None => None,
                Some(end) => {
                    assert(end + src@.len() <= len);
                    proof {
                        text::lemma_split_at_first(rest, src@, end - start);
                    }
                    let module: usize = end + src.len();
                    assert(rest.take(end - start) =~= file@.subrange(start as int, end as int));
                    assert(rest.skip(end - start + src@.len()) =~= file@.skip(module as int));
                    Some((start, end, module))
                },
            }
        },
    }
}

/// The record for `error`, seen at `caller`.
pub fn log_error_with_caller<'a, E>(caller: Location<'a>, error: E, level: Level) -> (record:
    LogRecord<'a, E>)
    ensures
        record.tells(caller, error, level),
{
    let file = slashed_file(&caller);
    let (target, path) = match locate(&file) {
        Some((start, end, module)) => {
            let dot_rs = text::chars_of(".rs");
            let colons = text::chars_of("::");
            proof {
                reveal_strlit(".rs");
            }
            let mut path = text::string_of(&file, start, end);
            path.append("::");
            let trimmed: usize = text::trimmed_len(&file, module, &dot_rs);
            text::push_replaced(&mut path, &file, module, trimmed, '/', &colons);
            (text::string_of(&file, start, end), Some(path))
        },
        None => (String::new(), None),
    };
    LogRecord { level, target, module: path, error, file: caller.file, line: caller.line }
}

/// A pattern that ends a text and stands nowhere earlier in it is still found
/// there first, whatever follows.
proof fn lemma_first_in_front(front: Seq<char>, pattern: Seq<char>, rest: Seq<char>)
    requires
        pattern.len() > 0,
        !text::occurs((front + pattern).drop_last(), pattern),
    ensures
        text::first_at(front + pattern + rest, pattern, front.len() as int),
{
    let whole = front + pattern + rest;
    let short = (front + pattern).drop_last();
    assert(whole.subrange(front.len() as int, (front.len() + pattern.len()) as int) =~= pattern);
    assert forall|earlier: int| 0 <= earlier < front.len() implies !text::occurs_at(
        whole,
        pattern,
        earlier,
    ) by {
        assert(whole.subrange(earlier, earlier + pattern.len()) =~= short.subrange(
            earlier,
            earlier + pattern.len(),
        ));
        assert(!text::occurs_at(short, pattern, earlier));
    }
}

/// An error seen in the file `module` of the crate `krate`, anywhere below a
/// `crates` directory, is logged under that crate and that module.
pub proof fn law_crate_is_found(above: Seq<char>, krate: Seq<char>, module: Seq<char>)
    requires
        !text::occurs((above + "crates/"@).drop_last(), "crates/"@),
        !text::occurs((krate + "/src/"@).drop_last(), "/src/"@),
    ensures
        ({
            let file = above + "crates/"@ + krate + "/src/"@ + module;
            &&& target_of(file) == krate
            &&& module_of(file) == Some(qualified(krate, module))
        }),
{
    reveal_strlit("crates/");
    reveal_strlit("/src/");
    let inner = krate + "/src/"@ + module;
    let file = above + "crates/"@ + krate + "/src/"@ + module;
    assert(file =~= above + "crates/"@ + inner);
    lemma_first_in_front(above, "crates/"@, inner);
    text::lemma_split_at_first(file, "crates/"@, above.len() as int);
    assert(file.skip((above.len() + "crates/"@.len()) as int) =~= inner);
    lemma_first_in_front(krate, "/src/"@, module);
    text::lemma_split_at_first(inner, "/src/"@, krate.len() as int);
    assert(inner.take(krate.len() as int) =~= krate);
    assert(inner.skip((krate.len() + "/src/"@.len()) as int) =~= module);
}

/// Whether a file lies in the sources of a crate: its first `crates/` is followed,
/// anywhere, by `/src/`.
pub open spec fn in_crate_sources(file: Seq<char>) -> bool {
    exists|at: int| #[trigger]
        text::first_at(file, "crates/"@, at) && text::occurs(
            file.skip(at + "crates/"@.len()),
            "/src/"@,
        )
}

/// A file outside the sources of any crate is logged under no target and no module,
/// and every other file under a module.
pub proof fn law_no_crate_no_target(file: Seq<char>)
    ensures
        module_of(file) is None <==> !in_crate_sources(file),
        !in_crate_sources(file) ==> target_of(file) == Seq::<char>::empty(),
{
    if text::occurs(file, "crates/"@) {
        let some = choose|at: int| text::occurs_at(file, "crates/"@, at);
        let at = text::lemma_first_exists(file, "crates/"@, some);
        text::lemma_split_at_first(file, "crates/"@, at);
        assert forall|other: int| #[trigger] text::first_at(file, "crates/"@, other) implies other
            == at by {
            if other < at {
                assert(!text::occurs_at(file, "crates/"@, other));
            } else if at < other {
                assert(!text::occurs_at(file, "crates/"@, at));
            }
        }
    }
}

/// A module path names a module in every segment: no `/` is left in what
/// follows the crate.
pub proof fn law_module_has_no_slash(file: Seq<char>)
    requires
        crate_and_module(file) is Some,
    ensures
        ({
            let krate = target_of(file);
            let path = module_of(file)->0;
            &&& path.len() >= krate.len() + 2
            &&& path.take((krate.len() + 2) as int) == krate + "::"@
            &&& !path.skip(krate.len() as int).contains('/')
        }),
{
    reveal_strlit("::");
    let (krate, module) = crate_and_module(file)->0;
    let tail = text::replace(text::trim_end_matches(module, ".rs"@), '/', "::"@);
    assert("::"@ =~= seq![':', ':']);
    text::lemma_replace_removes(text::trim_end_matches(module, ".rs"@), '/', "::"@);
    let path = krate + "::"@ + tail;
    assert(path.take((krate.len() + 2) as int) =~= krate + "::"@);
    assert(path.skip(krate.len() as int) =~= "::"@ + tail);
    assert forall|i: int| 0 <= i < ("::"@ + tail).len() implies ("::"@ + tail)[i] != '/' by {
        if i >= 2 {
            assert(tail.contains(tail[i - 2]));
        }
    }
}

/// The two ways of writing a path tell the logger the same: a location whose file
/// is written with `\` is logged as the one whose file is written with `/`.
pub proof fn law_separators_do_not_matter(file: Seq<char>)
    ensures
        slashed(slashed(file, PathStyle::Windows), PathStyle::Windows) == slashed(
            file,
            PathStyle::Windows,
        ),
        slashed(slashed(file, PathStyle::Windows), PathStyle::Posix) == slashed(
            file,
            PathStyle::Windows,
        ),
        !file.contains('\\') ==> slashed(file, PathStyle::Windows) == slashed(
            file,
            PathStyle::Posix,
        ),
{
    text::lemma_replace_removes(file, '\\', seq!['/']);
    text::lemma_replace_absent(text::replace(file, '\\', seq!['/']), '\\', seq!['/']);
    if !file.contains('\\') {
        text::lemma_replace_absent(file, '\\', seq!['/']);
    }
}

/// A stem ends in `.rs` only if its last part does.
proof fn lemma_stem_ends_with_its_last_part(parts: Seq<Seq<char>>)
    requires
        parts.len() > 0,
        parts.last().len() >= 3 ==> parts.last().skip(parts.last().len() - 3) != ".rs"@,
    ensures
        ({
            let stem = text::joined(parts, seq!['/']);
            stem.len() >= 3 ==> stem.skip(stem.len() - 3) != ".rs"@
        }),
{
    reveal_strlit(".rs");
    let stem = text::joined(parts, seq!['/']);
    let last = parts.last();
    if parts.len() > 1 && stem.len() >= 3 {
        let end = stem.skip(stem.len() - 3);
        if last.len() >= 3 {
            assert(end =~= last.skip(last.len() - 3));
        } else {
            assert(end[2 - last.len()] == '/');
            assert(".rs"@[2 - last.len()] != '/');
        }
    }
}

/// A module is named by the segments of its file below `src`, each as it is, however
/// often `.rs` stands at the end: an error seen there is logged under the crate as its
/// target, and under the crate and the segments, with `::` between them, as its module.
pub proof fn law_module_is_named_by_its_segments(
    above: Seq<char>,
    krate: Seq<char>,
    segments: Seq<Seq<char>>,
    times: nat,
)
    requires
        !text::occurs((above + "crates/"@).drop_last(), "crates/"@),
        !text::occurs((krate + "/src/"@).drop_last(), "/src/"@),
        segments.len() > 0,
        forall|i: int| 0 <= i < segments.len() ==> !(#[trigger] segments[i]).contains('/'),
        segments.last().len() >= 3 ==> segments.last().skip(segments.last().len() - 3) != ".rs"@,
    ensures
        ({
            let module = text::joined(segments, seq!['/']) + text::repeated(".rs"@, times);
            let file = above + "crates/"@ + krate + "/src/"@ + module;
            &&& target_of(file) == krate
            &&& module_of(file) == Some(krate + "::"@ + text::joined(segments, "::"@))
        }),
{
    reveal_strlit(".rs");
    let stem = text::joined(segments, seq!['/']);
    let module = stem + text::repeated(".rs"@, times);
    law_crate_is_found(above, krate, module);
    lemma_stem_ends_with_its_last_part(segments);
    text::law_trimming_ends_at_the_stem(stem, ".rs"@, times);
    text::law_replacing_keeps_the_parts(segments, '/', "::"@);
}

/// Telling separators apart is all that a style of writing paths does: under Windows
/// every `\` counts as `/`, and every other character, under any style, as itself.
pub proof fn law_style_is_about_separators(file: Seq<char>, style: PathStyle)
    ensures
        slashed(file, style).len() == file.len(),
        forall|i: int|
            0 <= i < file.len() ==> #[trigger] slashed(file, style)[i] == (if style is Windows
                && file[i] == '\\' {
                '/'
            } else {
                file[i]
            }),
{
    text::law_replacing_by_one_character(file, '\\', '/');
}

/// A record tells of the error itself, at the level asked for and with the file and line
/// of the caller as they are. Where `file` is the caller's file with its separators told
/// apart, its target and its module are those of `file`.
pub proof fn law_record_tells_all<'a, E>(
    record: LogRecord<'a, E>,
    caller: Location<'a>,
    error: E,
    level: Level,
    file: Seq<char>,
)
    requires
        record.tells(caller, error, level),
        file.len() == caller.file@.len(),
        forall|i: int|
            0 <= i < file.len() ==> #[trigger] file[i] == (if caller.style is Windows
                && caller.file@[i] == '\\' {
                '/'
            } else {
                caller.file@[i]
            }),
    ensures
        record.level == level,
        record.error == error,
        record.file@ == caller.file@,
        record.line == caller.line,
        record.target@ == target_of(file),
        record.module is Some <==> module_of(file) is Some,
        record.module matches Some(module) ==> module@ == module_of(file)->0,
{
    law_style_is_about_separators(caller.file@, caller.style);
    assert(slashed(caller.file@, caller.style) =~= file);
}

} // verus!
