//! Rendering of review annotations in the workflow-command format: one
//! line per finding, `::<command> <properties>::<message>`, with property
//! values and the message percent-escaped.

use vstd::prelude::*;

use vstd::string::StrSliceExecFns;
use vstd::string::StringExecFns;

use crate::hex;

verus! {

/// How one character is escaped inside a property value.
pub open spec fn escape_prop_char(c: char) -> Seq<char> {
    if c == '%' {
        seq!['%', '2', '5']
    } else if c == '\r' {
        seq!['%', '0', 'D']
    } else if c == '\n' {
        seq!['%', '0', 'A']
    } else if c == ':' {
        seq!['%', '3', 'A']
    } else if c == ',' {
        seq!['%', '2', 'C']
    } else {
        seq![c]
    }
}

/// A property value with `%`, carriage return, newline, `:` and `,`
/// escaped; the escapes this introduces are not escaped again.
pub open spec fn escape_prop_spec(s: Seq<char>) -> Seq<char>
    decreases s.len(),
{
    if s.len() == 0 {
        Seq::empty()
    } else {
        escape_prop_char(s.first()) + escape_prop_spec(s.drop_first())
    }
}

/// How one character is escaped inside a message.
pub open spec fn escape_data_char(c: char) -> Seq<char> {
    if c == '%' {
        seq!['%', '2', '5']
    } else if c == '\r' {
        seq!['%', '0', 'D']
    } else if c == '\n' {
        seq!['%', '0', 'A']
    } else {
        seq![c]
    }
}

/// A message with `%`, carriage return and newline escaped.
pub open spec fn escape_data_spec(s: Seq<char>) -> Seq<char>
    decreases s.len(),
{
    if s.len() == 0 {
        Seq::empty()
    } else {
        escape_data_char(s.first()) + escape_data_spec(s.drop_first())
    }
}

/// Append three characters.
fn push_three(r: &mut String, a: char, b: char, c: char)
    ensures
        final(r)@ == old(r)@ + seq![a, b, c],
{
    hex::push_char(r, a);
    hex::push_char(r, b);
    hex::push_char(r, c);
    proof {
        assert(old(r)@ + seq![a] + seq![b] + seq![c] =~= old(r)@ + seq![a, b, c]);
    }
}

/// Escape a property value.
pub fn escape_property(text: &str) -> (r: String)
    ensures
        r@ == escape_prop_spec(text@),
{
    let mut r = String::new();
    let n: usize = text.unicode_len();
    proof {
        assert(text@.skip(0) =~= text@);
    }
    let mut i: usize = 0;
    while i < n
        invariant
            i <= n,
            n == text@.len(),
            escape_prop_spec(text@) == r@ + escape_prop_spec(text@.skip(i as int)),
        decreases n - i,
    {
        proof {
            assert(text@.skip(i as int).first() == text@[i as int]);
            assert(text@.skip(i as int).drop_first() =~= text@.skip(i as int + 1));
        }
        let c = text.get_char(i);
        if c == '%' {
            push_three(&mut r, '%', '2', '5');
        } else if c == '\r' {
            push_three(&mut r, '%', '0', 'D');
        } else if c == '\n' {
            push_three(&mut r, '%', '0', 'A');
        } else if c == ':' {
            push_three(&mut r, '%', '3', 'A');
        } else if c == ',' {
            push_three(&mut r, '%', '2', 'C');
        } else {
            hex::push_char(&mut r, c);
        }
        i = i + 1;
    }
    proof {
        assert(text@.skip(n as int) =~= Seq::<char>::empty());
        assert(r@ + escape_prop_spec(text@.skip(n as int)) =~= r@);
    }
    r
}

/// Escape a message.
pub fn escape_data(text: &str) -> (r: String)
    ensures
        r@ == escape_data_spec(text@),
{
    let mut r = String::new();
    let n: usize = text.unicode_len();
    proof {
        assert(text@.skip(0) =~= text@);
    }
    let mut i: usize = 0;
    while i < n
        invariant
            i <= n,
            n == text@.len(),
            escape_data_spec(text@) == r@ + escape_data_spec(text@.skip(i as int)),
        decreases n - i,
    {
        proof {
            assert(text@.skip(i as int).first() == text@[i as int]);
            assert(text@.skip(i as int).drop_first() =~= text@.skip(i as int + 1));
        }
        let c = text.get_char(i);
        if c == '%' {
            push_three(&mut r, '%', '2', '5');
        } else if c == '\r' {
            push_three(&mut r, '%', '0', 'D');
        } else if c == '\n' {
            push_three(&mut r, '%', '0', 'A');
        } else {
            hex::push_char(&mut r, c);
        }
        i = i + 1;
    }
    proof {
        assert(text@.skip(n as int) =~= Seq::<char>::empty());
        assert(r@ + escape_data_spec(text@.skip(n as int)) =~= r@);
    }
    r
}

/// The decimal digits of a number, most significant first.
pub open spec fn dec_digits(n: nat) -> Seq<char>
    decreases n,
{
    if n < 10 {
        seq![hex::hex_digit(n as u8)]
    } else {
        dec_digits(n / 10) + seq![hex::hex_digit((n % 10) as u8)]
    }
}

/// Append the decimal digits of `n`.
pub fn push_decimal(s: &mut String, n: u64)
    ensures
        final(s)@ == old(s)@ + dec_digits(n as nat),
    decreases n,
{
    if n < 10 {
        hex::push_char(s, hex::hex_digit_char(n as u8));
    } else {
        push_decimal(s, n / 10);
        hex::push_char(s, hex::hex_digit_char((n % 10) as u8));
        proof {
            assert(old(s)@ + dec_digits((n / 10) as nat) + seq![
                hex::hex_digit((n % 10) as u8),
            ] =~= old(s)@ + dec_digits(n as nat));
        }
    }
}

/// The views of a sequence of strings.
pub open spec fn strings_view(s: Seq<String>) -> Seq<Seq<char>> {
    s.map_values(|x: String| x@)
}

/// One rendered property: the name, `=`, and the escaped value.
pub open spec fn prop_text(name: Seq<char>, value: Seq<char>) -> Seq<char> {
    name + seq!['='] + escape_prop_spec(value)
}

/// The rendered properties an optional value contributes: one or none.
pub open spec fn opt_prop(name: Seq<char>, value: Option<Seq<char>>) -> Seq<Seq<char>> {
    match value {
        Some(v) => seq![prop_text(name, v)],
        None => Seq::empty(),
    }
}

/// The view of an optional string.
pub open spec fn opt_str_view(v: Option<String>) -> Option<Seq<char>> {
    match v {
        Some(s) => Some(s@),
        None => None,
    }
}

/// The decimal text of an optional number.
pub open spec fn opt_num_view(v: Option<u64>) -> Option<Seq<char>> {
    match v {
        Some(n) => Some(dec_digits(n as nat)),
        None => None,
    }
}

/// Append the rendered property for an optional string value.
fn push_str_property(props: &mut Vec<String>, name: &str, value: &Option<String>)
    ensures
        strings_view(final(props)@) == strings_view(old(props)@) + opt_prop(
            name@,
            opt_str_view(*value),
        ),
{
    match value {
        Some(v) => {
            let mut p = name.to_owned();
            p.append("=");
            let escaped = escape_property(v.as_str());
            p.append(escaped.as_str());
            proof {
                reveal_strlit("=");
                assert("="@ =~= seq!['=']);
                assert(p@ =~= prop_text(name@, v@));
            }
            let ghost before = props@;
            props.push(p);
            proof {
                assert(strings_view(props@) =~= strings_view(before) + opt_prop(
                    name@,
                    opt_str_view(*value),
                ));
            }
        },
        None => {
            proof {
                assert(strings_view(props@) =~= strings_view(props@) + opt_prop(
                    name@,
                    opt_str_view(None),
                ));
            }
        },
    }
}

/// Append the rendered property for an optional number.
fn push_num_property(props: &mut Vec<String>, name: &str, value: &Option<u64>)
    ensures
        strings_view(final(props)@) == strings_view(old(props)@) + opt_prop(
            name@,
            opt_num_view(*value),
        ),
{
    match value {
        Some(v) => {
            let mut p = name.to_owned();
            p.append("=");
            push_decimal(&mut p, *v);
            proof {
                reveal_strlit("=");
                assert("="@ =~= seq!['=']);
                lemma_dec_digits_plain(*v as nat);
                lemma_escape_plain(dec_digits(*v as nat));
                assert(p@ =~= prop_text(name@, dec_digits(*v as nat)));
            }
            let ghost before = props@;
            props.push(p);
            proof {
                assert(strings_view(props@) =~= strings_view(before) + opt_prop(
                    name@,
                    opt_num_view(Some(*v)),
                ));
            }
        },
        None => {
            proof {
                assert(strings_view(props@) =~= strings_view(props@) + opt_prop(
                    name@,
                    opt_num_view(None),
                ));
            }
        },
    }
}

/// Characters that escaping leaves unchanged.
pub open spec fn unescaped_char(c: char) -> bool {
    c != '%' && c != '\r' && c != '\n' && c != ':' && c != ','
}

/// Escaping changes nothing in a string of such characters.
proof fn lemma_escape_plain(s: Seq<char>)
    requires
        forall|i: int| 0 <= i < s.len() ==> unescaped_char(#[trigger] s[i]),
    ensures
        escape_prop_spec(s) == s,
    decreases s.len(),
{
    if s.len() > 0 {
        assert(forall|i: int| 0 <= i < s.drop_first().len() ==> s.drop_first()[i] == s[i + 1]);
        lemma_escape_plain(s.drop_first());
        assert(escape_prop_char(s.first()) == seq![s.first()]);
        assert(escape_prop_spec(s) =~= s);
    }
}

/// Decimal renderings hold only digit characters, which escaping keeps.
proof fn lemma_dec_digits_plain(n: nat)
    ensures
        forall|i: int|
            0 <= i < dec_digits(n).len() ==> unescaped_char(#[trigger] dec_digits(n)[i]),
    decreases n,
{
    if n < 10 {
        assert(dec_digits(n)[0] == hex::hex_digit(n as u8));
    } else {
        lemma_dec_digits_plain(n / 10);
        assert forall|i: int| 0 <= i < dec_digits(n).len() implies unescaped_char(
            #[trigger] dec_digits(n)[i],
        ) by {
            if i < dec_digits(n / 10).len() {
                assert(dec_digits(n)[i] == dec_digits(n / 10)[i]);
            } else {
                assert(dec_digits(n)[i] == hex::hex_digit((n % 10) as u8));
            }
        }
    }
}

/// One annotation: where in which file a finding sits, and under what
/// title. Every field is optional; absent fields are left out of the
/// rendering.
#[derive(Debug)]
pub struct Annotation {
    pub title: Option<String>,
    pub file: Option<String>,
    pub start_line: Option<u64>,
    pub end_line: Option<u64>,
    pub start_column: Option<u64>,
    pub end_column: Option<u64>,
}

impl Default for Annotation {
    /// The empty annotation.
    fn default() -> (r: Annotation)
        ensures
            r.title is None,
            r.file is None,
            r.start_line is None,
            r.end_line is None,
            r.start_column is None,
            r.end_column is None,
    {
        Annotation {
            title: None,
            file: None,
            start_line: None,
            end_line: None,
            start_column: None,
            end_column: None,
        }
    }
}

/// The rendered properties of an annotation, in their fixed order.
pub open spec fn ann_props(a: &Annotation) -> Seq<Seq<char>> {
    opt_prop("title"@, opt_str_view(a.title)) + opt_prop("file"@, opt_str_view(a.file)) + opt_prop(
        "line"@,
        opt_num_view(a.start_line),
    ) + opt_prop("endLine"@, opt_num_view(a.end_line)) + opt_prop(
        "col"@,
        opt_num_view(a.start_column),
    ) + opt_prop("endCol"@, opt_num_view(a.end_column))
}

/// The parts joined with commas between them.
pub open spec fn join_commas(parts: Seq<Seq<char>>) -> Seq<char>
    decreases parts.len(),
{
    if parts.len() == 0 {
        Seq::empty()
    } else if parts.len() == 1 {
        parts[0]
    } else {
        parts.first() + seq![','] + join_commas(parts.drop_first())
    }
}

/// Appending one more part appends a comma and the part.
proof fn lemma_join_push(parts: Seq<Seq<char>>, x: Seq<char>)
    ensures
        join_commas(parts.push(x)) == if parts.len() == 0 {
            x
        } else {
            join_commas(parts) + seq![','] + x
        },
    decreases parts.len(),
{
    let w = parts.push(x);
    if parts.len() == 0 {
        assert(w.len() == 1);
        assert(w[0] == x);
    } else {
        assert(w.first() == parts.first());
        assert(w.drop_first() =~= parts.drop_first().push(x));
        lemma_join_push(parts.drop_first(), x);
        if parts.len() == 1 {
            assert(parts.drop_first().len() == 0);
            assert(join_commas(w) == parts.first() + seq![','] + x);
            assert(join_commas(parts) == parts[0]);
        } else {
            assert(join_commas(parts) + seq![','] + x =~= parts.first() + seq![','] + (
            join_commas(parts.drop_first()) + seq![','] + x));
        }
    }
}

/// Join the strings with commas between them.
pub fn join_with_commas(parts: &Vec<String>) -> (r: String)
    ensures
        r@ == join_commas(strings_view(parts@)),
{
    let mut r = String::new();
    let n: usize = parts.len();
    let ghost views = strings_view(parts@);
    proof {
        assert(views.take(0) =~= Seq::<Seq<char>>::empty());
    }
    let mut i: usize = 0;
    while i < n
        invariant
            i <= n,
            n == parts@.len(),
            views == strings_view(parts@),
            r@ == join_commas(views.take(i as int)),
        decreases n - i,
    {
        if i > 0 {
            hex::push_char(&mut r, ',');
        }
        r.append(parts[i].as_str());
        proof {
            assert(views.take(i as int + 1) =~= views.take(i as int).push(views[i as int]));
            lemma_join_push(views.take(i as int), views[i as int]);
            assert(views[i as int] == parts@[i as int]@);
        }
        i = i + 1;
    }
    proof {
        assert(views.take(n as int) =~= views);
    }
    r
}

impl Annotation {
    /// An annotation carrying a title, a file and a starting line.
    pub fn new(title: Option<String>, file: Option<String>, start_line: Option<u64>) -> (r:
        Annotation)
        ensures
            r.title == title,
            r.file == file,
            r.start_line == start_line,
            r.end_line is None,
            r.start_column is None,
            r.end_column is None,
    {
        Annotation { title, file, start_line, end_line: None, start_column: None, end_column: None }
    }

    /// The rendered properties, in their fixed order.
    pub fn properties(&self) -> (r: Vec<String>)
        ensures
            strings_view(r@) == ann_props(self),
    {
        let mut props: Vec<String> = Vec::new();
        proof {
            assert(strings_view(props@) =~= Seq::<Seq<char>>::empty());
        }
        push_str_property(&mut props, "title", &self.title);
        push_str_property(&mut props, "file", &self.file);
        push_num_property(&mut props, "line", &self.start_line);
        push_num_property(&mut props, "endLine", &self.end_line);
        push_num_property(&mut props, "col", &self.start_column);
        push_num_property(&mut props, "endCol", &self.end_column);
        proof {
            assert(strings_view(props@) =~= ann_props(self));
        }
        props
    }

    /// The annotation rendered as its comma-separated properties.
    pub fn render(&self) -> (r: String)
        ensures
            r@ == join_commas(ann_props(self)),
    {
        let props = self.properties();
        join_with_commas(&props)
    }
}

/// How severe a finding is; decides the command word of its annotation.
#[derive(Debug, Clone, Copy, PartialEq, Eq, Structural)]
pub enum Severity {
    Help,
    Note,
    Info,
    Warning,
    Error,
}

/// The command word for a severity: `notice`, `warning` or `error`.
pub fn command_word(s: Severity) -> (r: &'static str)
    ensures
        (s is Help || s is Note || s is Info) ==> r@ == "notice"@,
        s is Warning ==> r@ == "warning"@,
        s is Error ==> r@ == "error"@,
{
    match s {
        Severity::Help => "notice",
        Severity::Note => "notice",
        Severity::Info => "notice",
        Severity::Warning => "warning",
        Severity::Error => "error",
    }
}

/// One full annotation line: `::<command> <properties>::<message>`, the
/// message escaped.
pub fn command_line(command: &str, annotation: &Annotation, message: &str) -> (r: String)
    ensures
        r@ == "::"@ + command@ + seq![' '] + join_commas(ann_props(annotation)) + "::"@
            + escape_data_spec(message@),
{
    let mut r = String::new();
    r.append("::");
    r.append(command);
    hex::push_char(&mut r, ' ');
    let rendered = annotation.render();
    r.append(rendered.as_str());
    r.append("::");
    let escaped = escape_data(message);
    r.append(escaped.as_str());
    proof {
        assert(r@ =~= "::"@ + command@ + seq![' '] + join_commas(ann_props(annotation)) + "::"@
            + escape_data_spec(message@));
    }
    r
}

/// Whether `p` begins `s`, compared by characters.
pub fn str_starts_with(s: &str, p: &str) -> (r: bool)
    ensures
        r == p@.is_prefix_of(s@),
{
    let np: usize = p.unicode_len();
    let ns: usize = s.unicode_len();
    if np > ns {
        return false;
    }
    let mut i: usize = 0;
    while i < np
        invariant
            i <= np,
            np == p@.len() <= s@.len(),
            ns == s@.len(),
            forall|j: int| 0 <= j < i ==> s@[j] == p@[j],
        decreases np - i,
    {
        if s.get_char(i) != p.get_char(i) {
            return false;
        }
        i = i + 1;
    }
    proof {
        assert(p@ =~= s@.subrange(0, np as int));
    }
    true
}

/// The characters of `s` from `k` on, as an owned string.
pub fn str_skip(s: &str, k: usize) -> (r: String)
    requires
        k <= s@.len(),
    ensures
        r@ == s@.skip(k as int),
{
    let mut r = String::new();
    let n: usize = s.unicode_len();
    let mut i: usize = k;
    while i < n
        invariant
            k <= i <= n,
            n == s@.len(),
            r@.len() == i - k,
            forall|j: int| 0 <= j < r@.len() ==> r@[j] == s@[k + j],
        decreases n - i,
    {
        hex::push_char(&mut r, s.get_char(i));
        i = i + 1;
    }
    proof {
        assert(r@ =~= s@.skip(k as int));
    }
    r
}

/// The origin rewritten relative to `root`: the root prefix and one
/// leading slash removed.
pub open spec fn strip_origin_spec(root: Seq<char>, origin: Seq<char>) -> Seq<char> {
    let rest = origin.skip(root.len() as int);
    if rest.len() > 0 && rest[0] == '/' {
        rest.skip(1)
    } else {
        rest
    }
}

/// Prints review annotations for files under one root directory.
#[derive(Debug)]
pub struct Reporter {
    pub root: String,
}

impl Reporter {
    /// The origin rewritten relative to the reporter's root: `Some` of the
    /// origin with the root prefix and one leading slash removed, or
    /// `None` when the origin lies outside the root, in which case the
    /// caller keeps it unchanged.
    pub fn strip_origin(&self, origin: &str) -> (r: Option<String>)
        ensures
            match r {
                Some(s) => self.root@.is_prefix_of(origin@) && s@ == strip_origin_spec(
                    self.root@,
                    origin@,
                ),
                None => !self.root@.is_prefix_of(origin@),
            },
    {
        if !str_starts_with(origin, self.root.as_str()) {
            return None;
        }
        let rest = str_skip(origin, self.root.as_str().unicode_len());
        if rest.as_str().unicode_len() > 0 && rest.as_str().get_char(0) == '/' {
            let stripped = str_skip(rest.as_str(), 1);
            Some(stripped)
        } else {
            Some(rest)
        }
    }
}

} // verus!
