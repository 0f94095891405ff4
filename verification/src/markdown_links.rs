//! Guidance-link coherence: classification of the link destinations found in
//! the portable guidance corpus (`AGENTS.md` files and `.agents/` trees).
use vstd::prelude::*;
pub use crate::link_audit::MarkdownLinkResult;
use crate::paths::{
    FsPath, Part, extension_parts, file_name_parts, parse_text, render_parts,
};
use crate::text::{
    chars_of, contains_char, contains_str, contains_text, ends_with_str, is_text, push_all,
    replace_char, replaced, same_chars, starts_with, starts_with_str, text_of, trim_char, trimmed,
};

verus! {

/// Stable, machine-readable classification for a guidance Markdown link.
#[derive(Clone, Copy, Debug, PartialEq, Eq, Structural)]
pub enum LinkClass {
    /// Local target exists and is part of the portable guidance corpus.
    GuidanceTarget,
    /// Local target does not exist.
    MissingTarget,
    /// Local target exists but is outside the portable guidance corpus.
    NonGuidanceTarget,
    /// Local target exists but crosses a nested-repository boundary.
    CrossRepository,
    /// http(s), mailto:, or data: destination; not resolved for existence.
    External,
    /// Pure `#fragment` destination with no path component.
    FragmentOnly,
    /// Destination uses a scheme or shape this audit does not support.
    UnsupportedDependency,
    /// Local destination resolves outside the repository root entirely.
    UnsafePath,
    /// The guidance source file could not be read as UTF-8 Markdown.
    UnreadableArtifact,
}

/// The finding category (and id prefix) of each class.
pub open spec fn class_category(c: LinkClass) -> Seq<char> {
    match c {
        LinkClass::GuidanceTarget => "markdown_link_guidance_target"@,
        LinkClass::MissingTarget => "markdown_link_missing_target"@,
        LinkClass::NonGuidanceTarget => "markdown_link_non_guidance_target"@,
        LinkClass::CrossRepository => "markdown_link_cross_repository"@,
        LinkClass::External => "markdown_link_external"@,
        LinkClass::FragmentOnly => "markdown_link_fragment_only"@,
        LinkClass::UnsupportedDependency => "markdown_link_unsupported_dependency"@,
        LinkClass::UnsafePath => "markdown_link_unsafe_path"@,
        LinkClass::UnreadableArtifact => "markdown_link_unreadable_artifact"@,
    }
}

/// The classes that fail the link audit.
pub open spec fn class_is_blocking(c: LinkClass) -> bool {
    match c {
        LinkClass::MissingTarget | LinkClass::NonGuidanceTarget | LinkClass::UnsupportedDependency
        | LinkClass::UnsafePath | LinkClass::UnreadableArtifact => true,
        _ => false,
    }
}

/// The finding categories of the classes that fail the link audit.
pub open spec fn is_blocking_category(category: Seq<char>) -> bool {
    ||| category == "markdown_link_missing_target"@
    ||| category == "markdown_link_non_guidance_target"@
    ||| category == "markdown_link_unsupported_dependency"@
    ||| category == "markdown_link_unsafe_path"@
    ||| category == "markdown_link_unreadable_artifact"@
}

/// A class blocks exactly when its category is a blocking category.
pub proof fn lemma_blocking_category(c: LinkClass)
    ensures
        is_blocking_category(class_category(c)) == class_is_blocking(c),
{
    reveal_strlit("markdown_link_guidance_target");
    reveal_strlit("markdown_link_missing_target");
    reveal_strlit("markdown_link_non_guidance_target");
    reveal_strlit("markdown_link_cross_repository");
    reveal_strlit("markdown_link_external");
    reveal_strlit("markdown_link_fragment_only");
    reveal_strlit("markdown_link_unsupported_dependency");
    reveal_strlit("markdown_link_unsafe_path");
    reveal_strlit("markdown_link_unreadable_artifact");
    // Each category that does not block differs in length from every one that does.
    assert("markdown_link_missing_target"@.len() == 28);
    assert("markdown_link_non_guidance_target"@.len() == 33);
    assert("markdown_link_unsupported_dependency"@.len() == 36);
    assert("markdown_link_unsafe_path"@.len() == 25);
    assert("markdown_link_unreadable_artifact"@.len() == 33);
    assert("markdown_link_guidance_target"@.len() == 29);
    assert("markdown_link_cross_repository"@.len() == 30);
    assert("markdown_link_external"@.len() == 22);
    assert("markdown_link_fragment_only"@.len() == 27);
}

impl LinkClass {
    /// The finding `category` and id prefix of this class.
    pub fn category(self) -> (r: &'static str)
        ensures
            r@ == class_category(self),
    {
        match self {
            LinkClass::GuidanceTarget => "markdown_link_guidance_target",
            LinkClass::MissingTarget => "markdown_link_missing_target",
            LinkClass::NonGuidanceTarget => "markdown_link_non_guidance_target",
            LinkClass::CrossRepository => "markdown_link_cross_repository",
            LinkClass::External => "markdown_link_external",
            LinkClass::FragmentOnly => "markdown_link_fragment_only",
            LinkClass::UnsupportedDependency => "markdown_link_unsupported_dependency",
            LinkClass::UnsafePath => "markdown_link_unsafe_path",
            LinkClass::UnreadableArtifact => "markdown_link_unreadable_artifact",
        }
    }

    /// Blocking classes fail the link audit and the pre-commit hook.
    pub fn is_blocking(self) -> (r: bool)
        ensures
            r == class_is_blocking(self),
    {
        match self {
            LinkClass::MissingTarget | LinkClass::NonGuidanceTarget
            | LinkClass::UnsupportedDependency | LinkClass::UnsafePath
            | LinkClass::UnreadableArtifact => true,
            _ => false,
        }
    }
}

/// The shape of a link destination, as the contracts see it.
pub enum ShapeView {
    Local(Seq<char>),
    External,
    FragmentOnly,
    Unsupported,
}

/// The shape of a raw link destination, before any file-system resolution.
pub enum DestinationShape {
    Local(Vec<char>),
    External,
    FragmentOnly,
    Unsupported,
}

impl View for DestinationShape {
    type V = ShapeView;

    open spec fn view(&self) -> ShapeView {
        match self {
            DestinationShape::Local(p) => ShapeView::Local(p@),
            DestinationShape::External => ShapeView::External,
            DestinationShape::FragmentOnly => ShapeView::FragmentOnly,
            DestinationShape::Unsupported => ShapeView::Unsupported,
        }
    }
}

/// The part of `d` before its first `#`.
pub open spec fn before_hash(d: Seq<char>) -> Seq<char>
    decreases d.len(),
{
    if d.len() == 0 {
        d
    } else if d[0] == '#' {
        Seq::<char>::empty()
    } else {
        seq![d[0]] + before_hash(d.drop_first())
    }
}

/// The shape of a raw destination: the path part (before `#`) decides.
pub open spec fn destination_shape(d: Seq<char>) -> ShapeView {
    let p = before_hash(d);
    if p.len() == 0 {
        ShapeView::FragmentOnly
    } else if "mailto:"@.is_prefix_of(p) || "data:"@.is_prefix_of(p) {
        ShapeView::External
    } else if "http://"@.is_prefix_of(p) || "https://"@.is_prefix_of(p) {
        ShapeView::External
    } else if "//"@.is_prefix_of(p) || contains_text(p, "://"@) {
        ShapeView::Unsupported
    } else if p.contains('<') || p.contains('>') {
        ShapeView::Unsupported
    } else if p[0] == '/' {
        ShapeView::Unsupported
    } else {
        ShapeView::Local(p)
    }
}

/// The part before the first `#` is the prefix up to that `#`.
proof fn lemma_before_hash(d: Seq<char>, i: int)
    requires
        0 <= i <= d.len(),
        forall|j: int| 0 <= j < i ==> d[j] != '#',
        i == d.len() || d[i] == '#',
    ensures
        before_hash(d) == d.subrange(0, i),
    decreases d.len(),
{
    if d.len() > 0 && d[0] != '#' {
        lemma_before_hash(d.drop_first(), i - 1);
        assert(d.subrange(0, i) =~= seq![d[0]] + d.drop_first().subrange(0, i - 1));
    } else {
        assert(d.subrange(0, i) =~= Seq::<char>::empty());
    }
}

/// Only the part before the first `#` decides a destination's shape: adding
/// a fragment to a destination without `#` does not change its shape.
pub proof fn lemma_fragment_ignored(path: Seq<char>, fragment: Seq<char>)
    requires
        !path.contains('#'),
    ensures
        destination_shape(path + seq!['#'] + fragment) == destination_shape(path),
{
    let d = path + seq!['#'] + fragment;
    assert forall|j: int| 0 <= j < path.len() implies d[j] != '#' by {
        assert(d[j] == path[j]);
        if path[j] == '#' {
            assert(path.contains('#'));
        }
    }
    lemma_before_hash(d, path.len() as int);
    assert(d.subrange(0, path.len() as int) =~= path);
    assert forall|j: int| 0 <= j < path.len() implies path[j] != '#' by {
        if path[j] == '#' {
            assert(path.contains('#'));
        }
    }
    lemma_before_hash(path, path.len() as int);
    assert(path.subrange(0, path.len() as int) =~= path);
}

/// A destination that is only a fragment (or nothing) names no file.
pub proof fn lemma_fragment_only(fragment: Seq<char>)
    ensures
        destination_shape(seq!['#'] + fragment) == ShapeView::FragmentOnly,
        destination_shape(Seq::<char>::empty()) == ShapeView::FragmentOnly,
{
    lemma_before_hash(seq!['#'] + fragment, 0);
    lemma_before_hash(Seq::<char>::empty(), 0);
}

/// Web and mail links are external, whatever follows the scheme.
pub proof fn lemma_web_links_external(rest: Seq<char>)
    requires
        !rest.contains('#'),
    ensures
        destination_shape("https://"@ + rest) == ShapeView::External,
        destination_shape("http://"@ + rest) == ShapeView::External,
        destination_shape("mailto:"@ + rest) == ShapeView::External,
{
    reveal_strlit("https://");
    reveal_strlit("http://");
    reveal_strlit("mailto:");
    let ds = seq!["https://"@ + rest, "http://"@ + rest, "mailto:"@ + rest];
    let ps = seq!["https://"@, "http://"@, "mailto:"@];
    assert forall|k: int| 0 <= k < 3 implies destination_shape(#[trigger] ds[k])
        == ShapeView::External by {
        let d = ds[k];
        let pre = ps[k];
        assert(d == pre + rest);
        assert forall|j: int| 0 <= j < d.len() implies d[j] != '#' by {
            if j >= pre.len() {
                assert(d[j] == rest[j - pre.len()]);
                if rest[j - pre.len()] == '#' {
                    assert(rest.contains('#'));
                }
            }
        }
        lemma_before_hash(d, d.len() as int);
        assert(d.subrange(0, d.len() as int) =~= d);
        assert(d.subrange(0, pre.len() as int) =~= pre);
    }
    assert(ds[0] == "https://"@ + rest);
    assert(ds[1] == "http://"@ + rest);
    assert(ds[2] == "mailto:"@ + rest);
}

/// A destination whose path part starts with `/` (absolute, or with no
/// scheme before `//`) is unsupported.
pub proof fn lemma_rooted_unsupported(path: Seq<char>)
    requires
        path.len() > 0,
        path[0] == '/',
        !path.contains('#'),
    ensures
        destination_shape(path) == ShapeView::Unsupported,
{
    reveal_strlit("https://");
    reveal_strlit("http://");
    reveal_strlit("mailto:");
    reveal_strlit("data:");
    assert forall|j: int| 0 <= j < path.len() implies path[j] != '#' by {
        if path[j] == '#' {
            assert(path.contains('#'));
        }
    }
    lemma_before_hash(path, path.len() as int);
    assert(path.subrange(0, path.len() as int) =~= path);
    assert(!"https://"@.is_prefix_of(path) && !"http://"@.is_prefix_of(path));
    assert(!"mailto:"@.is_prefix_of(path) && !"data:"@.is_prefix_of(path));
}

/// A relative path with no fragment, no scheme (`://`, `mailto:`, `data:`)
/// and no angle brackets is a local destination, taken as it is.
pub proof fn lemma_plain_relative_is_local(path: Seq<char>)
    requires
        path.len() > 0,
        path[0] != '/',
        forall|j: int| 0 <= j < path.len() ==> path[j] != '#' && path[j] != '<' && path[j] != '>',
        !contains_text(path, "://"@),
        !"mailto:"@.is_prefix_of(path),
        !"data:"@.is_prefix_of(path),
    ensures
        destination_shape(path) == ShapeView::Local(path),
{
    reveal_strlit("https://");
    reveal_strlit("http://");
    reveal_strlit("://");
    reveal_strlit("//");
    lemma_before_hash(path, path.len() as int);
    assert(path.subrange(0, path.len() as int) =~= path);
    if "http://"@.is_prefix_of(path) {
        assert(path.subrange(4, 7) =~= "://"@);
        assert(crate::text::occurs_at(path, "://"@, 4));
    }
    if "https://"@.is_prefix_of(path) {
        assert(path.subrange(5, 8) =~= "://"@);
        assert(crate::text::occurs_at(path, "://"@, 5));
    }
    assert(!"//"@.is_prefix_of(path));
    assert(!path.contains('<') && !path.contains('>'));
}

/// The characters of `d` before its first `#`.
fn path_before_hash(d: &[char]) -> (r: Vec<char>)
    ensures
        r@ == before_hash(d@),
{
    let mut r: Vec<char> = Vec::new();
    let mut i: usize = 0;
    while i < d.len() && d[i] != '#'
        invariant
            i <= d@.len(),
            forall|j: int| 0 <= j < i ==> d@[j] != '#',
            r@ == d@.subrange(0, i as int),
        decreases d@.len() - i,
    {
        r.push(d[i]);
        i = i + 1;
        assert(r@ =~= d@.subrange(0, i as int));
    }
    proof {
        lemma_before_hash(d@, i as int);
    }
    r
}

/// Classifies a raw link destination before any file-system resolution.
pub fn classify_destination(destination: &str) -> (r: DestinationShape)
    ensures
        r@ == destination_shape(destination@),
{
    let d = chars_of(destination);
    let path = path_before_hash(d.as_slice());
    let p = path.as_slice();
    if p.len() == 0 {
        return DestinationShape::FragmentOnly;
    }
    if starts_with_str(p, "mailto:") || starts_with_str(p, "data:") {
        return DestinationShape::External;
    }
    if starts_with_str(p, "http://") || starts_with_str(p, "https://") {
        return DestinationShape::External;
    }
    if starts_with_str(p, "//") || contains_str(p, "://") {
        return DestinationShape::Unsupported;
    }
    if contains_char(p, '<') || contains_char(p, '>') {
        return DestinationShape::Unsupported;
    }
    if p[0] == '/' {
        return DestinationShape::Unsupported;
    }
    DestinationShape::Local(path)
}

/// The value of an ASCII hexadecimal digit.
pub open spec fn hex_value(b: u8) -> Option<u8> {
    if 48 <= b <= 57 {
        Some((b - 48) as u8)
    } else if 97 <= b <= 102 {
        Some((b - 97 + 10) as u8)
    } else if 65 <= b <= 70 {
        Some((b - 65 + 10) as u8)
    } else {
        None
    }
}

/// The value of an ASCII hexadecimal digit.
pub fn hex_digit(value: u8) -> (r: Option<u8>)
    ensures
        r == hex_value(value),
{
    if value >= 48 && value <= 57 {
        Some(value - 48)
    } else if value >= 97 && value <= 102 {
        Some(value - 97 + 10)
    } else if value >= 65 && value <= 70 {
        Some(value - 65 + 10)
    } else {
        None
    }
}

/// Percent-decoding of bytes: `%` followed by two hex digits is the byte
/// they spell; every byte becomes the character with that code.
pub open spec fn percent_decode(bs: Seq<u8>) -> Seq<char>
    decreases bs.len(),
{
    if bs.len() == 0 {
        Seq::<char>::empty()
    } else if bs[0] == 37 && bs.len() > 2 && hex_value(bs[1]) is Some && hex_value(bs[2]) is Some {
        seq![((hex_value(bs[1])->0 * 16 + hex_value(bs[2])->0) as u8) as char] + percent_decode(
            bs.skip(3),
        )
    } else {
        seq![bs[0] as char] + percent_decode(bs.skip(1))
    }
}

/// The upper-case hexadecimal digit (ASCII code) for `d < 16`.
pub open spec fn upper_hex_byte(d: u8) -> u8 {
    if d < 10 {
        (48 + d) as u8
    } else {
        (55 + d) as u8
    }
}

/// The lower-case hexadecimal digit (ASCII code) for `d < 16`.
pub open spec fn lower_hex_byte(d: u8) -> u8 {
    if d < 10 {
        (48 + d) as u8
    } else {
        (87 + d) as u8
    }
}

/// `%` followed by the two hexadecimal digits of a byte, upper-case or
/// lower-case, decodes to the character with that byte's code, and decoding
/// goes on after them.
pub proof fn lemma_percent_escape_decodes(x: u8, rest: Seq<u8>)
    ensures
        percent_decode(
            seq![37u8, upper_hex_byte(x / 16), upper_hex_byte(x % 16)] + rest,
        ) == seq![x as char] + percent_decode(rest),
        percent_decode(
            seq![37u8, lower_hex_byte(x / 16), lower_hex_byte(x % 16)] + rest,
        ) == seq![x as char] + percent_decode(rest),
{
    let hi = x / 16;
    let lo = x % 16;
    assert(hi * 16 + lo == x);
    let u = seq![37u8, upper_hex_byte(hi), upper_hex_byte(lo)] + rest;
    assert(u.skip(3) =~= rest);
    assert(u[0] == 37 && u[1] == upper_hex_byte(hi) && u[2] == upper_hex_byte(lo));
    let l = seq![37u8, lower_hex_byte(hi), lower_hex_byte(lo)] + rest;
    assert(l.skip(3) =~= rest);
    assert(l[0] == 37 && l[1] == lower_hex_byte(hi) && l[2] == lower_hex_byte(lo));
}

/// A byte other than `%` stands for the character with its code.
pub proof fn lemma_plain_byte_decodes(b: u8, rest: Seq<u8>)
    requires
        b != 37,
    ensures
        percent_decode(seq![b] + rest) == seq![b as char] + percent_decode(rest),
{
    assert((seq![b] + rest).skip(1) =~= rest);
}

/// A `%` not followed by two hexadecimal digits (`0`-`9`, `a`-`f`, `A`-`F`)
/// stays a `%`.
pub proof fn lemma_lone_percent_decodes(rest: Seq<u8>)
    requires
        !(rest.len() >= 2 && {
            let is_hex = |b: u8| (48 <= b <= 57) || (97 <= b <= 102) || (65 <= b <= 70);
            is_hex(rest[0]) && is_hex(rest[1])
        }),
    ensures
        percent_decode(seq![37u8] + rest) == seq!['%'] + percent_decode(rest),
{
    assert((seq![37u8] + rest).skip(1) =~= rest);
    assert((37u8 as char) == '%');
}

/// Decoding never yields more characters than there are bytes.
pub proof fn lemma_percent_decode_len(bs: Seq<u8>)
    ensures
        percent_decode(bs).len() <= bs.len(),
    decreases bs.len(),
{
    if bs.len() > 0 {
        if bs[0] == 37 && bs.len() > 2 && hex_value(bs[1]) is Some && hex_value(bs[2]) is Some {
            lemma_percent_decode_len(bs.skip(3));
        } else {
            lemma_percent_decode_len(bs.skip(1));
        }
    }
}

/// Bytes without `%` decode to themselves, each as the character with its code.
proof fn lemma_percent_decode_plain(bs: Seq<u8>)
    requires
        forall|i: int| 0 <= i < bs.len() ==> bs[i] != 37,
    ensures
        percent_decode(bs) == bs.map_values(|b: u8| b as char),
    decreases bs.len(),
{
    if bs.len() > 0 {
        lemma_percent_decode_plain(bs.skip(1));
        assert(percent_decode(bs) =~= bs.map_values(|b: u8| b as char));
    } else {
        assert(percent_decode(bs) =~= bs.map_values(|b: u8| b as char));
    }
}

/// ASCII text without `%` decodes to itself.
pub proof fn lemma_percent_decode_plain_ascii(s: Seq<char>)
    requires
        vstd::utf8::is_ascii_chars(s),
        !s.contains('%'),
    ensures
        percent_decode(vstd::utf8::encode_utf8(s)) == s,
{
    broadcast use vstd::utf8::is_ascii_chars_encode_utf8, vstd::utf8::is_ascii_chars_nat_bound;

    let bs = vstd::utf8::encode_utf8(s);
    assert forall|i: int| 0 <= i < bs.len() implies bs[i] != 37 by {
        assert(s[i] as u8 == bs[i]);
        assert((s[i] as nat) < 128);
        if bs[i] == 37 {
            assert(s[i] == '%');
            assert(s.contains('%'));
        }
    }
    lemma_percent_decode_plain(bs);
    assert forall|i: int| 0 <= i < s.len() implies (bs[i] as char) == s[i] by {
        assert(s[i] as u8 == bs[i]);
        assert((s[i] as nat) < 128);
    }
    assert(bs.map_values(|b: u8| b as char) =~= s);
}

/// Decodes `%XX` escapes in a link destination.
pub fn decode_percent_escapes(value: &str) -> (r: String)
    ensures
        r@ == percent_decode(vstd::utf8::encode_utf8(value@)),
        r@.len() <= vstd::utf8::encode_utf8(value@).len(),
{
    let bytes = value.as_bytes();
    let mut decoded: Vec<char> = Vec::new();
    let mut index: usize = 0;
    assert(bytes@.skip(0) =~= bytes@);
    while index < bytes.len()
        invariant
            index <= bytes@.len(),
            bytes@ == vstd::utf8::encode_utf8(value@),
            decoded@ + percent_decode(bytes@.skip(index as int)) == percent_decode(bytes@),
        decreases bytes@.len() - index,
    {
        let ghost rest = bytes@.skip(index as int);
        if bytes[index] == 37 && bytes.len() - index > 2 {
            let high = hex_digit(bytes[index + 1]);
            let low = hex_digit(bytes[index + 2]);
            match (high, low) {
                (Some(h), Some(l)) => {
                    let code: u8 = h * 16 + l;
                    decoded.push(code as char);
                    assert(rest.skip(3) =~= bytes@.skip(index + 3));
                    index = index + 3;
                    continue;
                },
                _ => {},
            }
        }
        decoded.push(bytes[index] as char);
        assert(rest.skip(1) =~= bytes@.skip(index + 1));
        index = index + 1;
    }
    assert(bytes@.skip(bytes@.len() as int) =~= Seq::<u8>::empty());
    proof {
        lemma_percent_decode_len(bytes@);
    }
    text_of(decoded.as_slice())
}

/// The portable guidance corpus: `AGENTS.md`/`README.md` at any level and
/// anything under a `.agents/` directory (after `\` becomes `/`).
pub open spec fn guidance_target_text(relative: Seq<char>) -> bool {
    let p = replace_char(relative, '\\', '/');
    ||| p == "AGENTS.md"@
    ||| "/AGENTS.md"@.is_suffix_of(p)
    ||| p == "README.md"@
    ||| "/README.md"@.is_suffix_of(p)
    ||| ".agents/"@.is_prefix_of(p)
    ||| contains_text(p, "/.agents/"@)
}

/// Is the repository-relative path part of the portable guidance corpus?
pub fn is_guidance_target(relative_path: &str) -> (r: bool)
    ensures
        r == guidance_target_text(relative_path@),
{
    let raw = chars_of(relative_path);
    let pv = replaced(raw.as_slice(), '\\', '/');
    let p = pv.as_slice();
    is_text(p, "AGENTS.md") || ends_with_str(p, "/AGENTS.md") || is_text(p, "README.md")
        || ends_with_str(p, "/README.md") || starts_with_str(p, ".agents/") || contains_str(
        p,
        "/.agents/",
    )
}

/// Is `p` under the top-level directory `dir`, or under such a directory
/// anywhere below the top (`dir` ends with `/`)?
pub open spec fn under_dir_text(p: Seq<char>, dir: Seq<char>) -> bool {
    dir.is_prefix_of(p) || contains_text(p, seq!['/'] + dir)
}

/// The extensions of files counted as source code.
pub open spec fn source_code_extension(e: Seq<char>) -> bool {
    ||| e == "rs"@ ||| e == "ts"@ ||| e == "tsx"@ ||| e == "js"@ ||| e == "jsx"@
    ||| e == "py"@ ||| e == "toml"@ ||| e == "json"@ ||| e == "sh"@ ||| e == "ps1"@
    ||| e == "yml"@ ||| e == "yaml"@
}

/// The human-readable subclass of a non-guidance target.
pub open spec fn non_guidance_subclass(t: Seq<char>) -> Seq<char> {
    if under_dir_text(t, ".ticket/"@) {
        "ticket_store"@
    } else if under_dir_text(t, ".spec/"@) {
        "spec_store"@
    } else if under_dir_text(t, "target/"@) {
        "generated_artifact"@
    } else {
        match extension_parts(parse_text(t)) {
            Some(e) => if source_code_extension(e) {
                "source_code"@
            } else {
                "unrelated_repository_file"@
            },
            None => "unrelated_repository_file"@,
        }
    }
}

/// Anything under a `.ticket/` directory, at the top or deeper, is a ticket
/// store file.
pub proof fn lemma_ticket_store(dir: Seq<char>, rest: Seq<char>)
    ensures
        non_guidance_subclass(".ticket/"@ + rest) == "ticket_store"@,
        non_guidance_subclass(dir + "/.ticket/"@ + rest) == "ticket_store"@,
{
    reveal_strlit(".ticket/");
    reveal_strlit("/.ticket/");
    assert((".ticket/"@ + rest).subrange(0, ".ticket/"@.len() as int) =~= ".ticket/"@);
    assert(seq!['/'] + ".ticket/"@ =~= "/.ticket/"@);
    lemma_occurs_between(dir, "/.ticket/"@, rest);
}

/// Is `p` under the directory named by `dir` (ending in `/`), at the top or
/// deeper?
fn under_dir(p: &[char], dir: &str) -> (r: bool)
    ensures
        r == under_dir_text(p@, dir@),
{
    if starts_with_str(p, dir) {
        return true;
    }
    let mut needle: Vec<char> = Vec::new();
    needle.push('/');
    let dc = chars_of(dir);
    push_all(&mut needle, dc.as_slice());
    assert(needle@ =~= seq!['/'] + dir@);
    crate::text::contains(p, needle.as_slice())
}

/// Is `e` one of the source-code extensions?
fn is_source_code_extension(e: &[char]) -> (r: bool)
    ensures
        r == source_code_extension(e@),
{
    is_text(e, "rs") || is_text(e, "ts") || is_text(e, "tsx") || is_text(e, "js") || is_text(
        e,
        "jsx",
    ) || is_text(e, "py") || is_text(e, "toml") || is_text(e, "json") || is_text(e, "sh")
        || is_text(e, "ps1") || is_text(e, "yml") || is_text(e, "yaml")
}

/// Best-effort human-readable subclass for a non-guidance target; it does
/// not affect the blocking decision.
pub fn detect_non_guidance_subclass(target_relative: &str) -> (r: &'static str)
    ensures
        r@ == non_guidance_subclass(target_relative@),
{
    let tv = chars_of(target_relative);
    let t = tv.as_slice();
    if under_dir(t, ".ticket/") {
        "ticket_store"
    } else if under_dir(t, ".spec/") {
        "spec_store"
    } else if under_dir(t, "target/") {
        "generated_artifact"
    } else {
        let path = FsPath::parse(target_relative);
        match path.extension() {
            Some(e) => if is_source_code_extension(e.as_slice()) {
                "source_code"
            } else {
                "unrelated_repository_file"
            },
            None => "unrelated_repository_file",
        }
    }
}

/// Guidance Markdown files: `.md` files that are `AGENTS.md` anywhere or lie
/// under a `.agents/` directory (after `\` becomes `/`).
pub open spec fn guidance_markdown_text(path: Seq<char>) -> bool {
    let p = replace_char(path, '\\', '/');
    &&& ".md"@.is_suffix_of(p)
    &&& {
        ||| p == "AGENTS.md"@
        ||| "/AGENTS.md"@.is_suffix_of(p)
        ||| p == ".agents/README.md"@
        ||| ".agents/"@.is_prefix_of(p)
        ||| contains_text(p, "/.agents/"@)
    }
}

/// Reading `\` as `/` commutes with joining texts.
proof fn lemma_replace_concat(x: Seq<char>, y: Seq<char>)
    ensures
        replace_char(x + y, '\\', '/') == replace_char(x, '\\', '/') + replace_char(y, '\\', '/'),
{
    assert(replace_char(x + y, '\\', '/') =~= replace_char(x, '\\', '/') + replace_char(
        y,
        '\\',
        '/',
    ));
}

/// A text without `\` reads the same with `\` read as `/`.
proof fn lemma_replace_absent(x: Seq<char>)
    requires
        forall|i: int| 0 <= i < x.len() ==> x[i] != '\\',
    ensures
        replace_char(x, '\\', '/') == x,
{
    assert(replace_char(x, '\\', '/') =~= x);
}

/// The corpus markers, none of which holds a `\`.
proof fn lemma_markers_plain()
    ensures
        replace_char("/.agents/"@, '\\', '/') == "/.agents/"@,
        replace_char(".agents/"@, '\\', '/') == ".agents/"@,
        replace_char(".md"@, '\\', '/') == ".md"@,
        replace_char("/AGENTS.md"@, '\\', '/') == "/AGENTS.md"@,
        replace_char("/README.md"@, '\\', '/') == "/README.md"@,
        replace_char("AGENTS.md"@, '\\', '/') == "AGENTS.md"@,
        replace_char("README.md"@, '\\', '/') == "README.md"@,
{
    reveal_strlit("/.agents/");
    reveal_strlit(".agents/");
    reveal_strlit(".md");
    reveal_strlit("/AGENTS.md");
    reveal_strlit("/README.md");
    reveal_strlit("AGENTS.md");
    reveal_strlit("README.md");
    lemma_replace_absent("/.agents/"@);
    lemma_replace_absent(".agents/"@);
    lemma_replace_absent(".md"@);
    lemma_replace_absent("/AGENTS.md"@);
    lemma_replace_absent("/README.md"@);
    lemma_replace_absent("AGENTS.md"@);
    lemma_replace_absent("README.md"@);
}

/// `marker` occurs in `a + marker + b`, right after `a`.
proof fn lemma_occurs_between(a: Seq<char>, marker: Seq<char>, b: Seq<char>)
    ensures
        contains_text(a + marker + b, marker),
{
    let s = a + marker + b;
    assert(s.subrange(a.len() as int, (a.len() + marker.len()) as int) =~= marker);
    assert(crate::text::occurs_at(s, marker, a.len() as int));
}

/// `suffix` ends `a + suffix`.
proof fn lemma_ends_with(a: Seq<char>, suffix: Seq<char>)
    ensures
        suffix.is_suffix_of(a + suffix),
{
    let s = a + suffix;
    assert(s.subrange(s.len() - suffix.len(), s.len() as int) =~= suffix);
}

/// A `.md` file under a `.agents/` directory at any depth below the root is
/// guidance Markdown, as is one under the top-level `.agents/`.
pub proof fn lemma_agents_directory_markdown(dir: Seq<char>, rest: Seq<char>)
    ensures
        guidance_markdown_text(dir + "/.agents/"@ + rest + ".md"@),
        guidance_markdown_text(".agents/"@ + rest + ".md"@),
{
    lemma_markers_plain();
    let d = replace_char(dir, '\\', '/');
    let r = replace_char(rest, '\\', '/');
    lemma_replace_concat(dir, "/.agents/"@);
    lemma_replace_concat(dir + "/.agents/"@, rest);
    lemma_replace_concat(dir + "/.agents/"@ + rest, ".md"@);
    let p = d + "/.agents/"@ + r + ".md"@;
    assert(replace_char(dir + "/.agents/"@ + rest + ".md"@, '\\', '/') == p);
    lemma_ends_with(d + "/.agents/"@ + r, ".md"@);
    lemma_occurs_between(d, "/.agents/"@, r + ".md"@);
    assert(d + "/.agents/"@ + (r + ".md"@) =~= p);
    lemma_replace_concat(".agents/"@, rest);
    lemma_replace_concat(".agents/"@ + rest, ".md"@);
    let q = ".agents/"@ + r + ".md"@;
    assert(replace_char(".agents/"@ + rest + ".md"@, '\\', '/') == q);
    lemma_ends_with(".agents/"@ + r, ".md"@);
    assert(q.subrange(0, ".agents/"@.len() as int) =~= ".agents/"@);
}

/// `AGENTS.md` is guidance Markdown at the root and in any directory.
pub proof fn lemma_agents_file_markdown(dir: Seq<char>)
    ensures
        guidance_markdown_text("AGENTS.md"@),
        guidance_markdown_text(dir + "/AGENTS.md"@),
{
    lemma_markers_plain();
    reveal_strlit("AGENTS.md");
    reveal_strlit(".md");
    lemma_ends_with("AGENTS"@, ".md"@);
    reveal_strlit("AGENTS");
    assert("AGENTS"@ + ".md"@ =~= "AGENTS.md"@);
    let d = replace_char(dir, '\\', '/');
    lemma_replace_concat(dir, "/AGENTS.md"@);
    reveal_strlit("/AGENTS.md");
    reveal_strlit("/AGENTS");
    assert("/AGENTS"@ + ".md"@ =~= "/AGENTS.md"@);
    lemma_ends_with(d + "/AGENTS"@, ".md"@);
    assert(d + "/AGENTS"@ + ".md"@ =~= d + "/AGENTS.md"@);
    lemma_ends_with(d, "/AGENTS.md"@);
}

/// Only `.md` files are guidance Markdown.
pub proof fn lemma_guidance_markdown_is_md(path: Seq<char>)
    requires
        guidance_markdown_text(path),
    ensures
        ".md"@.is_suffix_of(path),
{
    reveal_strlit(".md");
    let p = replace_char(path, '\\', '/');
    let n = path.len();
    let tail = p.subrange(n - 3, n as int);
    assert(tail =~= ".md"@);
    assert(tail[0] == p[n - 3] && tail[1] == p[n - 2] && tail[2] == p[n - 1]);
    assert(p[n - 3] == '.' && p[n - 2] == 'm' && p[n - 1] == 'd');
    assert(path.subrange(n - 3, n as int) =~= ".md"@);
}

/// The guidance corpus: `AGENTS.md` and `README.md` at the root and in any
/// directory, and anything under a `.agents/` directory at any depth.
pub proof fn lemma_guidance_targets(dir: Seq<char>, rest: Seq<char>)
    ensures
        guidance_target_text("AGENTS.md"@),
        guidance_target_text("README.md"@),
        guidance_target_text(dir + "/AGENTS.md"@),
        guidance_target_text(dir + "/README.md"@),
        guidance_target_text(".agents/"@ + rest),
        guidance_target_text(dir + "/.agents/"@ + rest),
{
    lemma_markers_plain();
    let d = replace_char(dir, '\\', '/');
    let r = replace_char(rest, '\\', '/');
    lemma_replace_concat(dir, "/AGENTS.md"@);
    lemma_ends_with(d, "/AGENTS.md"@);
    lemma_replace_concat(dir, "/README.md"@);
    lemma_ends_with(d, "/README.md"@);
    lemma_replace_concat(".agents/"@, rest);
    assert((".agents/"@ + r).subrange(0, ".agents/"@.len() as int) =~= ".agents/"@);
    lemma_replace_concat(dir, "/.agents/"@);
    lemma_replace_concat(dir + "/.agents/"@, rest);
    lemma_occurs_between(d, "/.agents/"@, r);
}

/// Is the repository-relative path a guidance Markdown file?
pub fn is_guidance_markdown(path: &str) -> (r: bool)
    ensures
        r == guidance_markdown_text(path@),
{
    let raw = chars_of(path);
    let pv = replaced(raw.as_slice(), '\\', '/');
    let p = pv.as_slice();
    ends_with_str(p, ".md") && (is_text(p, "AGENTS.md") || ends_with_str(p, "/AGENTS.md")
        || is_text(p, ".agents/README.md") || starts_with_str(p, ".agents/") || contains_str(
        p,
        "/.agents/",
    ))
}

/// Directory names that the guidance walk never enters.
pub open spec fn skipped_dir_name(n: Seq<char>) -> bool {
    ||| n == ".git"@ ||| n == "target"@ ||| n == "node_modules"@ ||| n == ".audit"@
    ||| n == ".idea"@ ||| n == ".vscode"@ ||| n == ".ticket"@ ||| n == ".spec"@
    ||| n == ".rule"@ ||| n == ".test"@ ||| n == ".session"@ ||| n == ".feedback"@
    ||| n == ".worktrees"@ ||| n == ".cargo"@ ||| n == "dist"@ ||| n == "build"@
}

/// Does the configured exclusion `excluded` cover the (trimmed) path text `t`?
pub open spec fn exclusion_covers(t: Seq<char>, excluded: Seq<char>) -> bool {
    let e = trim_char(excluded, '/');
    e.len() > 0 && (t == e || (e.push('/')).is_prefix_of(t))
}

/// Is the repository-relative path, written as `path`, excluded from the
/// guidance walk: its file name is a skipped directory name, or a configured
/// exclusion covers its text (with `\\` read as `/` and outer `/` trimmed)?
pub open spec fn excluded_path(path: Seq<char>, exclude_paths: Seq<Seq<char>>) -> bool {
    let named = match file_name_parts(parse_text(path)) {
        Some(n) => skipped_dir_name(n),
        None => false,
    };
    let t = trim_char(replace_char(path, '\\', '/'), '/');
    named || (exclude_paths.len() > 0 && exists|i: int|
        0 <= i < exclude_paths.len() && exclusion_covers(t, #[trigger] exclude_paths[i]))
}

/// Is `n` a skipped directory name?
fn is_skipped_dir_name(n: &[char]) -> (r: bool)
    ensures
        r == skipped_dir_name(n@),
{
    is_text(n, ".git") || is_text(n, "target") || is_text(n, "node_modules") || is_text(
        n,
        ".audit",
    ) || is_text(n, ".idea") || is_text(n, ".vscode") || is_text(n, ".ticket") || is_text(
        n,
        ".spec",
    ) || is_text(n, ".rule") || is_text(n, ".test") || is_text(n, ".session") || is_text(
        n,
        ".feedback",
    ) || is_text(n, ".worktrees") || is_text(n, ".cargo") || is_text(n, "dist") || is_text(
        n,
        "build",
    )
}

/// Does the exclusion cover the trimmed path text?
fn covers(t: &[char], excluded: &String) -> (r: bool)
    ensures
        r == exclusion_covers(t@, excluded@),
{
    let ec = chars_of(excluded.as_str());
    let e = trimmed(ec.as_slice(), '/');
    if e.len() == 0 {
        return false;
    }
    if same_chars(t, e.as_slice()) {
        return true;
    }
    let mut prefix = e;
    prefix.push('/');
    starts_with(t, prefix.as_slice())
}

/// Every configured exclusion counts, wherever it stands in the list: when
/// the path's text (with `\` read as `/` and outer `/` trimmed) is the
/// non-empty exclusion (outer `/` trimmed) or lies below it, the path is
/// excluded.
pub proof fn lemma_any_exclusion_excludes(path: Seq<char>, exclude_paths: Seq<Seq<char>>, i: int)
    requires
        0 <= i < exclude_paths.len(),
        ({
            let t = trim_char(replace_char(path, '\\', '/'), '/');
            let e = trim_char(exclude_paths[i], '/');
            e.len() > 0 && (t == e || e.push('/').is_prefix_of(t))
        }),
    ensures
        excluded_path(path, exclude_paths),
{
    let t = trim_char(replace_char(path, '\\', '/'), '/');
    assert(exclusion_covers(t, exclude_paths[i]));
}

/// A path is excluded only for a reason: its file name is a directory the
/// walk never enters, or some configured exclusion is it or lies above it.
pub proof fn lemma_exclusion_has_a_reason(path: Seq<char>, exclude_paths: Seq<Seq<char>>)
    requires
        excluded_path(path, exclude_paths),
    ensures
        (file_name_parts(parse_text(path)) matches Some(n) && skipped_dir_name(n)) || exists|i: int|
            0 <= i < exclude_paths.len() && {
                let t = trim_char(replace_char(path, '\\', '/'), '/');
                let e = trim_char(#[trigger] exclude_paths[i], '/');
                e.len() > 0 && (t == e || e.push('/').is_prefix_of(t))
            },
{
}

/// Is the repository-relative path, written as `path`, excluded from the
/// guidance walk?
pub fn is_excluded_path(path: &str, exclude_paths: &Vec<String>) -> (r: bool)
    ensures
        r == excluded_path(path@, exclude_paths@.map_values(|s: String| s@)),
{
    let ghost ex = exclude_paths@.map_values(|s: String| s@);
    let parsed = FsPath::parse(path);
    match parsed.file_name() {
        Some(name) => {
            if is_skipped_dir_name(name.as_slice()) {
                return true;
            }
        },
        None => {},
    }
    if exclude_paths.len() == 0 {
        return false;
    }
    let raw = chars_of(path);
    let normalized = replaced(raw.as_slice(), '\\', '/');
    let t = trimmed(normalized.as_slice(), '/');
    let mut i: usize = 0;
    while i < exclude_paths.len()
        invariant
            i <= exclude_paths@.len(),
            ex == exclude_paths@.map_values(|s: String| s@),
            t@ == trim_char(replace_char(path@, '\\', '/'), '/'),
            forall|j: int| 0 <= j < i ==> !exclusion_covers(t@, #[trigger] ex[j]),
        decreases exclude_paths@.len() - i,
    {
        if covers(t.as_slice(), &exclude_paths[i]) {
            assert(exclusion_covers(t@, ex[i as int]));
            return true;
        }
        i = i + 1;
    }
    false
}

/// How a path is shown relative to the repository root: `.` for the root
/// itself, the part below the root for paths under it, otherwise the whole
/// path; `\` becomes `/` in the last two.
pub open spec fn display_relative_text(root: Seq<Part>, path: Seq<Part>) -> Seq<char> {
    if path == root {
        "."@
    } else if root.is_prefix_of(path) {
        replace_char(render_parts(path.skip(root.len() as int)), '\\', '/')
    } else {
        replace_char(render_parts(path), '\\', '/')
    }
}

/// Shows `path` relative to the repository root.
pub fn display_relative(repo_root: &FsPath, path: &FsPath) -> (r: String)
    ensures
        r@ == display_relative_text(repo_root@, path@),
{
    if path.same(repo_root) {
        let r = String::from_str(".");
        return r;
    }
    let shown = match path.strip_prefix(repo_root) {
        Some(rest) => rest.render(),
        None => path.render(),
    };
    let out = replaced(shown.as_slice(), '\\', '/');
    text_of(out.as_slice())
}

/// The repository-relative text of a walked file when it is a guidance
/// Markdown candidate: a `.md` file under the root whose relative text (with
/// `\` as `/`) names guidance Markdown.
pub open spec fn guidance_candidate(root: Seq<Part>, path: Seq<Part>) -> Option<Seq<char>> {
    if extension_parts(path) == Some("md"@) && root.is_prefix_of(path) {
        let rel = replace_char(render_parts(path.skip(root.len() as int)), '\\', '/');
        if guidance_markdown_text(rel) {
            Some(rel)
        } else {
            None
        }
    } else {
        None
    }
}

/// The repository-relative text of a walked file, when it is a guidance
/// Markdown candidate; it is one of the guidance files when its repository
/// is the audited root.
pub fn guidance_markdown_candidate(repo_root: &FsPath, path: &FsPath) -> (r: Option<String>)
    ensures
        match r {
            Some(t) => guidance_candidate(repo_root@, path@) == Some(t@),
            None => guidance_candidate(repo_root@, path@) is None,
        },
{
    let is_md = match path.extension() {
        Some(e) => is_text(e.as_slice(), "md"),
        None => false,
    };
    if !is_md {
        return None;
    }
    let below = match path.strip_prefix(repo_root) {
        Some(rest) => rest,
        None => {
            return None;
        },
    };
    let rendered = below.render();
    let rel = text_of(replaced(rendered.as_slice(), '\\', '/').as_slice());
    if is_guidance_markdown(rel.as_str()) {
        Some(rel)
    } else {
        None
    }
}

} // verus!
