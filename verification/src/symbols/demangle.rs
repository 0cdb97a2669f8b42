//! Picking the attribution label from the names of the frames of a call stack.
//!
//! A captured stack is a list of frames, innermost first. Each frame carries
//! the name of its first symbol, when it has one. The label of a stack is the
//! qualified name of the first frame, in that order, that belongs to one of the
//! traced modules and is not one of the tracer's own functions; so among
//! several traced frames the innermost one wins. The qualified name is the
//! name without the uniqueness tag that the compiler may have put at its end.

use vstd::prelude::*;

verus! {

/// The names of the frames of a stack, innermost first, as the contracts see them.
pub type FrameNames = Seq<Option<Seq<char>>>;

/// The label given to a stack in which no frame can be attributed.
pub open spec fn unknown_label() -> Seq<char> {
    "<unknown>"@
}

/// The tracer's own call sites, which are never attributed to. Each entry
/// excludes every name that starts with it, so one entry stands for all the
/// functions whose names begin alike.
///
/// The call sites of the allocator are listed under two module paths,
/// `leaktracer::allocator` and `leaktracer::alloc`, so that a stack is read
/// alike whichever of the two its names carry.
pub open spec fn ignore_list() -> Seq<Seq<char>> {
    seq![
        "leaktracer::symbols::demangle::capture_symbol_names"@,
        "leaktracer::symbols::demangle::get_demangled_symbol"@,
        "leaktracer::symbols::SymbolTable::alloc"@,
        "leaktracer::symbols::SymbolTable::dealloc"@,
        "leaktracer::allocator::with_symbol_table_mut"@,
        "leaktracer::allocator::LeaktracerAllocator::trace"@,
        "leaktracer::allocator::LeaktracerAllocator::alloc"@,
        "leaktracer::allocator::LeaktracerAllocator::dealloc"@,
        "leaktracer::alloc::LeaktracerAllocator::trace_allocation"@,
        "leaktracer::alloc::with_symbol_table_mut"@,
        "leaktracer::alloc::LeaktracerAllocator::trace"@,
        "leaktracer::alloc::LeaktracerAllocator::alloc"@,
        "leaktracer::alloc::LeaktracerAllocator::dealloc"@,
    ]
}

/// The texts of a list of string slices.
pub open spec fn str_views(list: Seq<&str>) -> Seq<Seq<char>> {
    Seq::new(list.len(), |i: int| list[i]@)
}

/// The texts of a list of character vectors.
pub open spec fn char_views(list: Seq<Vec<char>>) -> Seq<Seq<char>> {
    Seq::new(list.len(), |i: int| list[i]@)
}

/// The names of a list of frames.
pub open spec fn frame_names(frames: Seq<Option<String>>) -> FrameNames {
    Seq::new(
        frames.len(),
        |i: int|
            match frames[i] {
                Some(name) => Some(name@),
                None => None,
            },
    )
}

/// `name` starts with one of `prefixes`.
pub open spec fn starts_with_any(name: Seq<char>, prefixes: Seq<Seq<char>>) -> bool {
    exists|i: int| 0 <= i < prefixes.len() && (#[trigger] prefixes[i]).is_prefix_of(name)
}

/// A frame can be attributed to when it has a name, the name is not one of
/// the tracer's own, and it starts with one of the traced modules.
pub open spec fn eligible(frame: Option<Seq<char>>, modules: Seq<Seq<char>>) -> bool {
    match frame {
        Some(name) => !starts_with_any(name, ignore_list()) && starts_with_any(name, modules),
        None => false,
    }
}

/// `found` is the position of the first frame that can be attributed to, or
/// `None` when there is no such frame.
pub open spec fn is_first_eligible(
    frames: FrameNames,
    modules: Seq<Seq<char>>,
    found: Option<int>,
) -> bool {
    match found {
        Some(at) => {
            &&& 0 <= at < frames.len()
            &&& eligible(frames[at], modules)
            &&& forall|j: int| 0 <= j < at ==> !eligible(#[trigger] frames[j], modules)
        },
        None => forall|j: int| 0 <= j < frames.len() ==> !eligible(#[trigger] frames[j], modules),
    }
}

/// The position of the first frame that can be attributed to.
pub open spec fn first_eligible(frames: FrameNames, modules: Seq<Seq<char>>) -> Option<int> {
    if exists|at: int| is_first_eligible(frames, modules, Some(at)) {
        Some(choose|at: int| is_first_eligible(frames, modules, Some(at)))
    } else {
        None
    }
}

/// A path separator `::` starts at position `at` of `name`.
pub open spec fn separator_at(name: Seq<char>, at: int) -> bool {
    0 <= at && at + 1 < name.len() && name[at] == ':' && name[at + 1] == ':'
}

/// `found` is the position of the last path separator of `name`, or `None`
/// when `name` has no separator.
pub open spec fn is_last_separator(name: Seq<char>, found: Option<int>) -> bool {
    match found {
        Some(at) => {
            &&& separator_at(name, at)
            &&& forall|j: int| at < j ==> !separator_at(name, j)
        },
        None => forall|j: int| !separator_at(name, j),
    }
}

/// The position of the last path separator of `name`.
pub open spec fn last_separator(name: Seq<char>) -> Option<int> {
    if exists|at: int| is_last_separator(name, Some(at)) {
        Some(choose|at: int| is_last_separator(name, Some(at)))
    } else {
        None
    }
}

/// The number of hexadecimal digits of a uniqueness tag.
pub const TAG_DIGITS: usize = 16;

/// `c` is a hexadecimal digit, in either case.
pub open spec fn is_hex_digit(c: char) -> bool {
    ('0' <= c && c <= '9') || ('a' <= c && c <= 'f') || ('A' <= c && c <= 'F')
}

/// `segment` looks like the uniqueness tag that the compiler puts at the end
/// of a name: the letter `h` and sixteen hexadecimal digits, nothing else.
pub open spec fn is_tag(segment: Seq<char>) -> bool {
    &&& segment.len() == TAG_DIGITS + 1
    &&& segment[0] == 'h'
    &&& forall|i: int| 1 <= i <= TAG_DIGITS ==> is_hex_digit(#[trigger] segment[i])
}

/// The qualified name of a symbol. Where what follows the last path
/// separator is a uniqueness tag, the name is cut before that separator, so
/// that the tag is dropped. Every other name is kept whole: its last segment
/// is part of the path.
pub open spec fn qualified_name(name: Seq<char>) -> Seq<char> {
    match last_separator(name) {
        Some(at) => if is_tag(name.skip(at + 2)) {
            name.take(at)
        } else {
            name
        },
        None => name,
    }
}

/// The label of a stack: the qualified name of its first frame that can be
/// attributed to, or the unknown label.
pub open spec fn attribution(frames: FrameNames, modules: Seq<Seq<char>>) -> Seq<char> {
    match first_eligible(frames, modules) {
        Some(at) => qualified_name(frames[at]->0),
        None => unknown_label(),
    }
}

/// At most one position is the first that can be attributed to, so
/// `first_eligible` is the one answer that `is_first_eligible` admits.
pub proof fn lemma_first_eligible_unique(
    frames: FrameNames,
    modules: Seq<Seq<char>>,
    found: Option<int>,
)
    requires
        is_first_eligible(frames, modules, found),
    ensures
        first_eligible(frames, modules) == found,
{
    match found {
        Some(at) => {
            let chosen = choose|c: int| is_first_eligible(frames, modules, Some(c));
            assert(is_first_eligible(frames, modules, Some(chosen)));
            if chosen < at {
                assert(!eligible(frames[chosen], modules));
            } else if at < chosen {
                assert(!eligible(frames[at], modules));
            }
        },
        None => {
            if exists|c: int| is_first_eligible(frames, modules, Some(c)) {
                let c = choose|c: int| is_first_eligible(frames, modules, Some(c));
                assert(!eligible(frames[c], modules));
            }
        },
    }
}

/// At most one position is the last separator, so `last_separator` is the one
/// answer that `is_last_separator` admits.
pub proof fn lemma_last_separator_unique(name: Seq<char>, found: Option<int>)
    requires
        is_last_separator(name, found),
    ensures
        last_separator(name) == found,
{
    match found {
        Some(at) => {
            let chosen = choose|c: int| is_last_separator(name, Some(c));
            assert(is_last_separator(name, Some(chosen)));
            if chosen < at {
                assert(!separator_at(name, at));
            } else if at < chosen {
                assert(!separator_at(name, chosen));
            }
        },
        None => {
            if exists|c: int| is_last_separator(name, Some(c)) {
                let c = choose|c: int| is_last_separator(name, Some(c));
                assert(!separator_at(name, c));
            }
        },
    }
}

/// The characters of `s`, in order.
pub fn chars_of(s: &str) -> (out: Vec<char>)
    ensures
        out@ == s@,
{
    let mut out: Vec<char> = Vec::new();
    for c in it: s.chars()
        invariant
            out@ == it.seq().take(it.index@),
    {
        out.push(c);
    }
    out
}

/// Whether `name` starts with `prefix`.
pub fn has_prefix(name: &Vec<char>, prefix: &Vec<char>) -> (yes: bool)
    ensures
        yes == prefix@.is_prefix_of(name@),
{
    if prefix.len() > name.len() {
        return false;
    }
    let mut i: usize = 0;
    while i < prefix.len()
        invariant
            i <= prefix.len() <= name.len(),
            forall|j: int| 0 <= j < i ==> prefix@[j] == name@[j],
        decreases prefix.len() - i,
    {
        if prefix[i] != name[i] {
            assert(name@.subrange(0, prefix@.len() as int)[i as int] != prefix@[i as int]);
            return false;
        }
        i += 1;
    }
    assert(prefix@ =~= name@.subrange(0, prefix@.len() as int));
    true
}

/// Whether `name` starts with one of `prefixes`.
pub fn has_any_prefix(name: &Vec<char>, prefixes: &Vec<Vec<char>>) -> (yes: bool)
    ensures
        yes == starts_with_any(name@, char_views(prefixes@)),
{
    let mut i: usize = 0;
    while i < prefixes.len()
        invariant
            i <= prefixes.len(),
            forall|j: int|
                0 <= j < i ==> !(#[trigger] char_views(prefixes@)[j]).is_prefix_of(name@),
        decreases prefixes.len() - i,
    {
        if has_prefix(name, &prefixes[i]) {
            assert(char_views(prefixes@)[i as int] == prefixes@[i as int]@);
            return true;
        }
        i += 1;
    }
    false
}

/// The characters of each of `list`, in order.
pub fn chars_of_each(list: &[&str]) -> (out: Vec<Vec<char>>)
    ensures
        char_views(out@) == str_views(list@),
{
    let mut out: Vec<Vec<char>> = Vec::new();
    let mut i: usize = 0;
    while i < list.len()
        invariant
            i <= list.len(),
            out@.len() == i,
            forall|j: int| 0 <= j < i ==> (#[trigger] out@[j])@ == list@[j]@,
        decreases list.len() - i,
    {
        out.push(chars_of(list[i]));
        i += 1;
    }
    assert(char_views(out@) =~= str_views(list@));
    out
}

/// The tracer's own call sites, as characters.
pub fn ignored_prefixes() -> (out: Vec<Vec<char>>)
    ensures
        char_views(out@) == ignore_list(),
{
    let mut out: Vec<Vec<char>> = Vec::new();
    out.push(chars_of("leaktracer::symbols::demangle::capture_symbol_names"));
    out.push(chars_of("leaktracer::symbols::demangle::get_demangled_symbol"));
    out.push(chars_of("leaktracer::symbols::SymbolTable::alloc"));
    out.push(chars_of("leaktracer::symbols::SymbolTable::dealloc"));
    out.push(chars_of("leaktracer::allocator::with_symbol_table_mut"));
    out.push(chars_of("leaktracer::allocator::LeaktracerAllocator::trace"));
    out.push(chars_of("leaktracer::allocator::LeaktracerAllocator::alloc"));
    out.push(chars_of("leaktracer::allocator::LeaktracerAllocator::dealloc"));
    out.push(chars_of("leaktracer::alloc::LeaktracerAllocator::trace_allocation"));
    out.push(chars_of("leaktracer::alloc::with_symbol_table_mut"));
    out.push(chars_of("leaktracer::alloc::LeaktracerAllocator::trace"));
    out.push(chars_of("leaktracer::alloc::LeaktracerAllocator::alloc"));
    out.push(chars_of("leaktracer::alloc::LeaktracerAllocator::dealloc"));
    assert(char_views(out@) =~= ignore_list());
    out
}

/// Finds the frame to attribute to: the first of `frames`, innermost first,
/// that has a name which starts with one of `modules` and with none of the
/// tracer's own call sites.
pub fn get_symbol_from_backtrace(
    frames: &Vec<Option<String>>,
    modules: &[&str],
) -> (found: Option<usize>)
    ensures
        match found {
            Some(at) => first_eligible(frame_names(frames@), str_views(modules@))
                == Some(at as int),
            None => first_eligible(frame_names(frames@), str_views(modules@)) is None,
        },
{
    let allowed = chars_of_each(modules);
    let ignored = ignored_prefixes();
    let ghost names = frame_names(frames@);
    let ghost wanted = str_views(modules@);
    let mut i: usize = 0;
    while i < frames.len()
        invariant
            i <= frames.len(),
            names == frame_names(frames@),
            wanted == str_views(modules@),
            char_views(allowed@) == wanted,
            char_views(ignored@) == ignore_list(),
            forall|j: int| 0 <= j < i ==> !eligible(#[trigger] names[j], wanted),
        decreases frames.len() - i,
    {
        match &frames[i] {
            Some(name) => {
                let text = chars_of(name.as_str());
                if !has_any_prefix(&text, &ignored) && has_any_prefix(&text, &allowed) {
                    proof {
                        lemma_first_eligible_unique(names, wanted, Some(i as int));
                    }
                    return Some(i);
                }
            },
            None => {},
        }
        i += 1;
    }
    proof {
        lemma_first_eligible_unique(names, wanted, None);
    }
    None
}

/// The position of the last `::` of `name`.
pub fn find_last_separator(name: &Vec<char>) -> (found: Option<usize>)
    ensures
        match found {
            Some(at) => at + 2 <= name.len() && last_separator(name@) == Some(at as int),
            None => last_separator(name@) is None,
        },
{
    let mut i: usize = name.len();
    while i >= 2
        invariant
            i <= name.len(),
            forall|j: int| i - 1 <= j ==> !separator_at(name@, j),
        decreases i,
    {
        if name[i - 2] == ':' && name[i - 1] == ':' {
            proof {
                lemma_last_separator_unique(name@, Some(i - 2));
            }
            return Some(i - 2);
        }
        i -= 1;
    }
    proof {
        lemma_last_separator_unique(name@, None);
    }
    None
}

/// Whether `c` is a hexadecimal digit.
pub fn hex_digit(c: char) -> (yes: bool)
    ensures
        yes == is_hex_digit(c),
{
    ('0' <= c && c <= '9') || ('a' <= c && c <= 'f') || ('A' <= c && c <= 'F')
}

/// Whether what `name` holds from position `from` on is a uniqueness tag.
pub fn has_tag_at(name: &Vec<char>, from: usize) -> (yes: bool)
    requires
        from <= name@.len(),
    ensures
        yes == is_tag(name@.skip(from as int)),
{
    let ghost segment = name@.skip(from as int);
    if name.len() - from != TAG_DIGITS + 1 || name[from] != 'h' {
        return false;
    }
    let mut i: usize = 1;
    while i <= TAG_DIGITS
        invariant
            1 <= i <= TAG_DIGITS + 1,
            name@.len() == from + TAG_DIGITS + 1 <= usize::MAX,
            segment == name@.skip(from as int),
            forall|j: int| 1 <= j < i ==> is_hex_digit(#[trigger] segment[j]),
        decreases TAG_DIGITS + 1 - i,
    {
        assert(segment[i as int] == name@[from + i]);
        if !hex_digit(name[from + i]) {
            return false;
        }
        i += 1;
    }
    true
}

/// The qualified name of a symbol: `name` without its last `::` and the
/// uniqueness tag that follows it, or all of `name` when it does not end in
/// such a tag.
pub fn symbol_name(name: &str) -> (label: String)
    ensures
        label@ == qualified_name(name@),
{
    let text = chars_of(name);
    match find_last_separator(&text) {
        Some(at) => if has_tag_at(&text, at + 2) {
            name.substring_char(0, at).to_owned()
        } else {
            name.to_owned()
        },
        None => name.to_owned(),
    }
}

/// The label of a captured stack: the qualified name of the frame that
/// `get_symbol_from_backtrace` finds, or `<unknown>` when it finds none.
pub fn attribute(frames: &Vec<Option<String>>, modules: &[&str]) -> (label: String)
    ensures
        label@ == attribution(frame_names(frames@), str_views(modules@)),
{
    match get_symbol_from_backtrace(frames, modules) {
        Some(at) => match &frames[at] {
            Some(name) => symbol_name(name.as_str()),
            None => "<unknown>".to_owned(),
        },
        None => "<unknown>".to_owned(),
    }
}

/// The name that stands for a frame: that of the first of its symbols. A
/// frame without symbols has none, and neither has a frame whose first
/// symbol is without a name.
pub open spec fn first_name(symbols: Seq<Option<String>>) -> Option<String> {
    if symbols.len() == 0 {
        None
    } else {
        symbols[0]
    }
}

/// Captures the stack of the calling thread with `backtrace::Backtrace::new`
/// and walks what `Backtrace::frames` lists, from the innermost frame
/// outwards. For each frame it hands out every entry of
/// `BacktraceFrame::symbols`, in the order of that list, as the `Display` of
/// its `BacktraceSymbol::name` prints it, or `None` for a symbol without a
/// name.
///
/// The contract promises nothing of the names: they depend on where the call
/// is made, on the symbols that the running program carries and on how the
/// compiler mangled them. `backtrace` takes a lock of its own for the
/// capture and panics on it only where an earlier capture panicked while it
/// held that lock.
#[verifier::external_body]
fn capture_symbol_names() -> (frames: Vec<Vec<Option<String>>>) {
    let stack = backtrace::Backtrace::new();
    stack
        .frames()
        .iter()
        .map(|frame| frame.symbols().iter().map(|symbol| symbol.name()))
        .map(|names| names.map(|name| name.map(|name| format!("{name}"))).collect())
        .collect()
}

/// The name that stands for each frame: that of the first of its symbols.
pub fn first_names(frames: &Vec<Vec<Option<String>>>) -> (names: Vec<Option<String>>)
    ensures
        names@.len() == frames@.len(),
        forall|i: int| 0 <= i < frames@.len() ==> #[trigger] names@[i] == first_name(frames@[i]@),
{
    let mut names: Vec<Option<String>> = Vec::new();
    let mut i: usize = 0;
    while i < frames.len()
        invariant
            i <= frames.len(),
            names@.len() == i,
            forall|j: int| 0 <= j < i ==> #[trigger] names@[j] == first_name(frames@[j]@),
        decreases frames.len() - i,
    {
        let symbols = &frames[i];
        let name = if symbols.len() == 0 {
            None
        } else {
            match &symbols[0] {
                Some(text) => Some(text.clone()),
                None => None,
            }
        };
        names.push(name);
        i += 1;
    }
    names
}

/// Get the label of the call site that the calling thread is in: the
/// attribution of its stack as it stands at the call.
pub fn get_demangled_symbol(modules: &[&str]) -> (label: String)
    ensures
        exists|frames: FrameNames| label@ == attribution(frames, str_views(modules@)),
{
    let frames = capture_symbol_names();
    let names = first_names(&frames);
    let label = attribute(&names, modules);
    assert(label@ == attribution(frame_names(names@), str_views(modules@)));
    label
}

} // verus!
