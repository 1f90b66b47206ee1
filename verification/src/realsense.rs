//! RealSense device metadata: the device blocks of `rs-enumerate-devices -c` output, and
//! how their fields describe a ROS camera source.
use vstd::prelude::*;
use crate::text::{owned, push_char, spec_starts_with, starts_with, str_eq};

verus! {

// ---------------------------------------------------------------------------------------
// Characters and trimming
// ---------------------------------------------------------------------------------------

/// Unicode white space (the characters `char::is_whitespace` accepts).
pub open spec fn is_space(c: char) -> bool {
    c == '\t' || c == '\n' || c == '\u{0B}' || c == '\u{0C}' || c == '\r' || c == ' ' || c == '\u{85}'
        || c == '\u{A0}' || c == '\u{1680}' || ('\u{2000}' <= c && c <= '\u{200A}') || c == '\u{2028}'
        || c == '\u{2029}' || c == '\u{202F}' || c == '\u{205F}' || c == '\u{3000}'
}

fn space(c: char) -> (res: bool)
    ensures
        res == is_space(c),
{
    c == '\t' || c == '\n' || c == '\u{0B}' || c == '\u{0C}' || c == '\r' || c == ' ' || c == '\u{85}'
        || c == '\u{A0}' || c == '\u{1680}' || ('\u{2000}' <= c && c <= '\u{200A}') || c == '\u{2028}'
        || c == '\u{2029}' || c == '\u{202F}' || c == '\u{205F}' || c == '\u{3000}'
}

/// The number of leading white-space characters.
pub open spec fn leading_space(s: Seq<char>) -> nat
    decreases s.len(),
{
    if s.len() > 0 && is_space(s[0]) {
        1 + leading_space(s.drop_first())
    } else {
        0
    }
}

/// The number of trailing white-space characters.
pub open spec fn trailing_space(s: Seq<char>) -> nat
    decreases s.len(),
{
    if s.len() > 0 && is_space(s.last()) {
        1 + trailing_space(s.drop_last())
    } else {
        0
    }
}

/// `s` without leading and trailing white space (`str::trim`).
pub open spec fn trim_spec(s: Seq<char>) -> Seq<char> {
    let a = leading_space(s);
    if a == s.len() {
        Seq::empty()
    } else {
        s.subrange(a as int, s.len() - trailing_space(s))
    }
}

proof fn lemma_leading_bound(s: Seq<char>)
    ensures
        leading_space(s) <= s.len(),
        forall|k: int| 0 <= k < leading_space(s) ==> is_space(#[trigger] s[k]),
        leading_space(s) < s.len() ==> !is_space(s[leading_space(s) as int]),
    decreases s.len(),
{
    if s.len() > 0 && is_space(s[0]) {
        lemma_leading_bound(s.drop_first());
        assert forall|k: int| 0 <= k < leading_space(s) implies is_space(#[trigger] s[k]) by {
            if k > 0 {
                assert(s[k] == s.drop_first()[k - 1]);
            }
        }
    }
}

proof fn lemma_leading_from(s: Seq<char>, i: int)
    requires
        0 <= i <= s.len(),
        forall|k: int| 0 <= k < i ==> is_space(#[trigger] s[k]),
        i == s.len() || !is_space(s[i]),
    ensures
        leading_space(s) == i,
    decreases s.len(),
{
    if i > 0 {
        lemma_leading_from(s.drop_first(), i - 1);
    }
}

proof fn lemma_trailing_from(s: Seq<char>, j: int)
    requires
        0 <= j <= s.len(),
        forall|k: int| j <= k < s.len() ==> is_space(#[trigger] s[k]),
        j == 0 || !is_space(s[j - 1]),
    ensures
        trailing_space(s) == s.len() - j,
    decreases s.len(),
{
    if j < s.len() {
        lemma_trailing_from(s.drop_last(), j);
    }
}

/// The characters of a text.
pub fn chars_of(s: &str) -> (res: Vec<char>)
    ensures
        res@ == s@,
{
    let n = s.unicode_len();
    let mut res: Vec<char> = Vec::new();
    let mut i: usize = 0;
    while i < n
        invariant
            n == s@.len(),
            i <= n,
            res@ == s@.take(i as int),
        decreases n - i,
    {
        res.push(s.get_char(i));
        assert(s@.take(i as int + 1) =~= s@.take(i as int).push(s@[i as int]));
        i += 1;
    }
    assert(s@.take(n as int) =~= s@);
    res
}

/// A string of the characters `chars[from..to]`.
pub fn string_of(chars: &Vec<char>, from: usize, to: usize) -> (res: String)
    requires
        from <= to <= chars@.len(),
    ensures
        res@ == chars@.subrange(from as int, to as int),
{
    let mut res = String::new();
    let mut i = from;
    while i < to
        invariant
            from <= i <= to <= chars@.len(),
            res@ == chars@.subrange(from as int, i as int),
        decreases to - i,
    {
        push_char(&mut res, chars[i]);
        assert(chars@.subrange(from as int, i as int + 1) =~= chars@.subrange(from as int, i as int).push(chars@[i as int]));
        i += 1;
    }
    res
}

/// The bounds of `chars[from..to]` without leading and trailing white space.
fn trim_bounds(chars: &Vec<char>, from: usize, to: usize) -> (res: (usize, usize))
    requires
        from <= to <= chars@.len(),
    ensures
        from <= res.0 <= res.1 <= to,
        chars@.subrange(res.0 as int, res.1 as int) == trim_spec(chars@.subrange(from as int, to as int)),
{
    let ghost s = chars@.subrange(from as int, to as int);
    let mut a = from;
    while a < to && space(chars[a])
        invariant
            from <= a <= to <= chars@.len(),
            s == chars@.subrange(from as int, to as int),
            forall|k: int| 0 <= k < a - from ==> is_space(#[trigger] s[k]),
        decreases to - a,
    {
        a += 1;
    }
    proof {
        lemma_leading_from(s, a - from);
    }
    if a == to {
        return (a, a);
    }
    let mut b = to;
    while b > a && space(chars[b - 1])
        invariant
            from <= a < to,
            a < b <= to <= chars@.len(),
            s == chars@.subrange(from as int, to as int),
            forall|k: int| b - from <= k < s.len() ==> is_space(#[trigger] s[k]),
            !is_space(chars@[a as int]),
        decreases b - a,
    {
        b -= 1;
    }
    proof {
        assert(b > a);
        lemma_trailing_from(s, b - from);
        assert(chars@.subrange(a as int, b as int) =~= s.subrange(a - from, b - from));
    }
    (a, b)
}

/// `s` without leading and trailing white space.
pub fn trim(s: &str) -> (res: String)
    ensures
        res@ == trim_spec(s@),
{
    let chars = chars_of(s);
    let (a, b) = trim_bounds(&chars, 0, chars.len());
    assert(chars@.subrange(0, chars@.len() as int) =~= chars@);
    string_of(&chars, a, b)
}

// ---------------------------------------------------------------------------------------
// Lines
// ---------------------------------------------------------------------------------------

/// The position of the first line feed in `s` at or after `from`, or `s.len()`.
pub open spec fn line_end(s: Seq<char>, from: int) -> int
    decreases s.len() - from,
{
    if from >= s.len() {
        s.len() as int
    } else if s[from] == '\n' {
        from
    } else {
        line_end(s, from + 1)
    }
}

/// A line's text without the carriage return of a `\r\n` ending.
pub open spec fn strip_cr(line: Seq<char>, ended: bool) -> Seq<char> {
    if ended && line.len() > 0 && line.last() == '\r' {
        line.drop_last()
    } else {
        line
    }
}

/// The lines of a text (`str::lines`): split at `\n` or `\r\n`; a final line ending
/// adds no empty line.
pub open spec fn lines_spec(s: Seq<char>) -> Seq<Seq<char>>
    decreases s.len(),
{
    if s.len() == 0 {
        Seq::empty()
    } else {
        let e = line_end(s, 0);
        if e >= s.len() {
            seq![s]
        } else {
            proof {
                lemma_line_end_bounds(s, 0);
            }
            seq![strip_cr(s.subrange(0, e), true)] + lines_spec(s.subrange(e + 1, s.len() as int))
        }
    }
}

pub proof fn lemma_line_end_bounds(s: Seq<char>, from: int)
    requires
        0 <= from,
    ensures
        from <= line_end(s, from) || from > s.len(),
        line_end(s, from) <= s.len(),
        from <= s.len() ==> from <= line_end(s, from),
        line_end(s, from) < s.len() ==> s[line_end(s, from)] == '\n',
        forall|k: int| from <= k < line_end(s, from) ==> s[k] != '\n',
    decreases s.len() - from,
{
    if from < s.len() && s[from] != '\n' {
        lemma_line_end_bounds(s, from + 1);
    }
}

proof fn lemma_line_end_shift(s: Seq<char>, pos: int, from: int)
    requires
        0 <= pos <= from,
    ensures
        line_end(s.subrange(pos, s.len() as int), from - pos) + pos == line_end(s, from) || pos > s.len(),
    decreases s.len() - from,
{
    if pos <= s.len() && from < s.len() && s[from] != '\n' {
        lemma_line_end_shift(s, pos, from + 1);
    }
}

// ---------------------------------------------------------------------------------------
// Device blocks
// ---------------------------------------------------------------------------------------

/// The fields of one device block, in the order they appear (a later field with the
/// same key replaces an earlier one).
pub type Fields = Seq<(Seq<char>, Seq<char>)>;

/// The field key a label stands for.
pub open spec fn field_key(label: Seq<char>) -> Option<Seq<char>> {
    if label == "Name"@ {
        Some("device_name"@)
    } else if label == "Serial Number"@ {
        Some("serial_number"@)
    } else if label == "Firmware Version"@ {
        Some("firmware_version"@)
    } else if label == "Physical Port"@ {
        Some("physical_port"@)
    } else if label == "Usb Type Descriptor"@ {
        Some("usb_type_descriptor"@)
    } else {
        None
    }
}

/// The position of the first `:` in a line.
pub open spec fn colon_at(line: Seq<char>) -> Option<int> {
    if exists|i: int| 0 <= i < line.len() && line[i] == ':' && forall|j: int| 0 <= j < i ==> line[j] != ':' {
        Some(choose|i: int| 0 <= i < line.len() && line[i] == ':' && forall|j: int| 0 <= j < i ==> line[j] != ':')
    } else {
        None
    }
}

/// The parser's state: the finished device blocks and the block being read.
pub struct ParseView {
    pub devices: Seq<Fields>,
    pub current: Option<Fields>,
}

/// One line: `Device info:` starts a new block; inside a block, a `label: value` line
/// with a known label adds a field with the trimmed value; other lines are skipped.
pub open spec fn parse_line(state: ParseView, line: Seq<char>) -> ParseView {
    if trim_spec(line) == "Device info:"@ {
        ParseView {
            devices: match state.current {
                Some(d) => state.devices.push(d),
                None => state.devices,
            },
            current: Some(Seq::empty()),
        }
    } else {
        match state.current {
            None => state,
            Some(d) => match colon_at(line) {
                None => state,
                Some(i) => match field_key(trim_spec(line.subrange(0, i))) {
                    None => state,
                    Some(key) => ParseView {
                        devices: state.devices,
                        current: Some(d.push((key, trim_spec(line.subrange(i + 1, line.len() as int))))),
                    },
                },
            },
        }
    }
}

pub open spec fn parse_lines(state: ParseView, lines: Seq<Seq<char>>) -> ParseView
    decreases lines.len(),
{
    if lines.len() == 0 {
        state
    } else {
        parse_lines(parse_line(state, lines[0]), lines.drop_first())
    }
}

/// The device blocks of `rs-enumerate-devices -c` output.
pub open spec fn parse_spec(output: Seq<char>) -> Seq<Fields> {
    let end = parse_lines(ParseView { devices: Seq::empty(), current: None }, lines_spec(output));
    match end.current {
        Some(d) => end.devices.push(d),
        None => end.devices,
    }
}

/// One device block as parsed.
pub struct DeviceInfo {
    pub fields: Vec<(String, String)>,
}

pub open spec fn fields_view(fields: Seq<(String, String)>) -> Fields {
    fields.map_values(|f: (String, String)| (f.0@, f.1@))
}

pub open spec fn devices_view(devices: Seq<DeviceInfo>) -> Seq<Fields> {
    devices.map_values(|d: DeviceInfo| fields_view(d.fields@))
}

fn key_text(label: &str) -> (res: Option<&'static str>)
    ensures
        match res {
            Some(k) => field_key(label@) == Some(k@),
            None => field_key(label@) is None,
        },
{
    if str_eq(label, "Name") {
        Some("device_name")
    } else if str_eq(label, "Serial Number") {
        Some("serial_number")
    } else if str_eq(label, "Firmware Version") {
        Some("firmware_version")
    } else if str_eq(label, "Physical Port") {
        Some("physical_port")
    } else if str_eq(label, "Usb Type Descriptor") {
        Some("usb_type_descriptor")
    } else {
        None
    }
}

fn find_colon(chars: &Vec<char>, from: usize, to: usize) -> (res: Option<usize>)
    requires
        from <= to <= chars@.len(),
    ensures
        match res {
            Some(i) => from <= i < to && colon_at(chars@.subrange(from as int, to as int)) == Some(i - from),
            None => colon_at(chars@.subrange(from as int, to as int)) is None,
        },
{
    let ghost line = chars@.subrange(from as int, to as int);
    let mut i = from;
    while i < to
        invariant
            from <= i <= to <= chars@.len(),
            line == chars@.subrange(from as int, to as int),
            forall|j: int| 0 <= j < i - from ==> line[j] != ':',
        decreases to - i,
    {
        if chars[i] == ':' {
            proof {
                let w = i - from;
                assert(line[w] == ':');
                let c = choose|c: int| 0 <= c < line.len() && line[c] == ':' && forall|j: int| 0 <= j < c ==> line[j] != ':';
                if c < w {
                    assert(line[c] != ':');
                }
                if c > w {
                    assert(line[w] != ':');
                }
            }
            return Some(i);
        }
        i += 1;
    }
    None
}

pub open spec fn state_of(devices: Seq<DeviceInfo>, current: Option<Vec<(String, String)>>) -> ParseView {
    ParseView {
        devices: devices_view(devices),
        current: match current {
            Some(c) => Some(fields_view(c@)),
            None => None,
        },
    }
}

/// Applies one line, `chars[from..to]`, to the parser's state.
fn process_line(
    chars: &Vec<char>,
    from: usize,
    to: usize,
    devices: &mut Vec<DeviceInfo>,
    current: &mut Option<Vec<(String, String)>>,
)
    requires
        from <= to <= chars@.len(),
    ensures
        state_of(final(devices)@, *final(current)) == parse_line(
            state_of(old(devices)@, *old(current)),
            chars@.subrange(from as int, to as int),
        ),
{
    let ghost line = chars@.subrange(from as int, to as int);
    let (ta, tb) = trim_bounds(chars, from, to);
    let trimmed = string_of(chars, ta, tb);
    if str_eq(trimmed.as_str(), "Device info:") {
        let previous = current.take();
        *current = Some(Vec::new());
        match previous {
            Some(c) => {
                let ghost before = devices_view(devices@);
                let d = DeviceInfo { fields: c };
                devices.push(d);
                assert(devices_view(devices@) =~= before.push(fields_view(d.fields@)));
            },
            None => {},
        }
        assert(fields_view(Seq::<(String, String)>::empty()) =~= Seq::empty());
        return;
    }
    let mut c = match current.take() {
        None => {
            return;
        },
        Some(c) => c,
    };
    let ghost old_c = c@;
    match find_colon(chars, from, to) {
        None => {},
        Some(i) => {
            let (la, lb) = trim_bounds(chars, from, i);
            let label = string_of(chars, la, lb);
            proof {
                assert(chars@.subrange(from as int, i as int) =~= line.subrange(0, i - from));
            }
            match key_text(label.as_str()) {
                None => {},
                Some(key) => {
                    let (va, vb) = trim_bounds(chars, i + 1, to);
                    let value = string_of(chars, va, vb);
                    proof {
                        assert(chars@.subrange(i + 1, to as int) =~= line.subrange(i - from + 1, line.len() as int));
                    }
                    let ghost before = fields_view(c@);
                    c.push((owned(key), value));
                    assert(fields_view(c@) =~= before.push((key@, value@)));
                },
            }
        },
    }
    *current = Some(c);
}

/// The device blocks of `rs-enumerate-devices -c` output: each `Device info:` line
/// starts a block, and the known `label: value` lines in it become its fields.
pub fn parse_realsense_device_info(output: &str) -> (res: Vec<DeviceInfo>)
    ensures
        devices_view(res@) == parse_spec(output@),
{
    let chars = chars_of(output);
    let n = chars.len();
    let ghost s = chars@;
    let mut devices: Vec<DeviceInfo> = Vec::new();
    let mut current: Option<Vec<(String, String)>> = None;
    let mut pos: usize = 0;
    let ghost init = ParseView { devices: Seq::empty(), current: None };
    assert(s.subrange(0, n as int) =~= s);
    assert(devices_view(devices@) =~= Seq::<Fields>::empty());
    while pos < n
        invariant
            n == s.len(),
            s == chars@,
            s == output@,
            pos <= n,
            parse_lines(state_of(devices@, current), lines_spec(s.subrange(pos as int, n as int)))
                == parse_lines(init, lines_spec(s)),
        decreases n - pos,
    {
        let ghost rest = s.subrange(pos as int, n as int);
        let ghost before = state_of(devices@, current);
        let mut end = pos;
        while end < n && chars[end] != '\n'
            invariant
                pos <= end <= n,
                n == chars@.len(),
                forall|k: int| pos <= k < end ==> chars@[k] != '\n',
            decreases n - end,
        {
            end += 1;
        }
        let ended = end < n;
        let mut line_stop = end;
        if ended && line_stop > pos && chars[line_stop - 1] == '\r' {
            line_stop -= 1;
        }
        proof {
            lemma_line_split(s, pos as int, end as int, line_stop as int);
        }
        process_line(&chars, pos, line_stop, &mut devices, &mut current);
        pos = if ended {
            end + 1
        } else {
            n
        };
    }
    match current {
        Some(c) => {
            let ghost before = devices_view(devices@);
            let d = DeviceInfo { fields: c };
            devices.push(d);
            assert(devices_view(devices@) =~= before.push(fields_view(d.fields@)));
        },
        None => {},
    }
    devices
}

/// The lines of `s[pos..]` are the line `s[pos..line_stop]` and the lines after its end.
proof fn lemma_line_split(s: Seq<char>, pos: int, end: int, line_stop: int)
    requires
        0 <= pos < s.len(),
        pos <= end <= s.len(),
        forall|k: int| pos <= k < end ==> s[k] != '\n',
        end == s.len() || s[end] == '\n',
        line_stop == if end < s.len() && end > pos && s[end - 1] == '\r' {
            end - 1
        } else {
            end
        },
    ensures
        ({
            let rest = s.subrange(pos, s.len() as int);
            let next = if end < s.len() { end + 1 } else { s.len() as int };
            &&& lines_spec(rest).len() > 0
            &&& lines_spec(rest)[0] == s.subrange(pos, line_stop)
            &&& lines_spec(rest).drop_first() == lines_spec(s.subrange(next, s.len() as int))
        }),
{
    let rest = s.subrange(pos, s.len() as int);
    lemma_line_end_from(rest, pos, end, s);
    let e = line_end(rest, 0);
    assert(e == end - pos);
    let ended = end < s.len();
    if ended {
        assert(strip_cr(rest.subrange(0, e), true) =~= s.subrange(pos, line_stop));
        assert(rest.subrange(e + 1, rest.len() as int) =~= s.subrange(end + 1, s.len() as int));
        let tail = lines_spec(s.subrange(end + 1, s.len() as int));
        assert(lines_spec(rest) == seq![s.subrange(pos, line_stop)] + tail);
        assert((seq![s.subrange(pos, line_stop)] + tail).drop_first() =~= tail);
    } else {
        assert(rest =~= s.subrange(pos, line_stop));
        assert(lines_spec(rest) == seq![rest]);
        assert(seq![rest].drop_first() =~= Seq::<Seq<char>>::empty());
        assert(s.subrange(s.len() as int, s.len() as int) =~= Seq::<char>::empty());
    }
}

proof fn lemma_line_end_from(rest: Seq<char>, pos: int, end: int, s: Seq<char>)
    requires
        0 <= pos <= end <= s.len(),
        rest == s.subrange(pos, s.len() as int),
        forall|k: int| pos <= k < end ==> s[k] != '\n',
        end == s.len() || s[end] == '\n',
    ensures
        line_end(rest, 0) == end - pos,
{
    assert forall|k: int| 0 <= k < end - pos implies rest[k] != '\n' by {
        assert(rest[k] == s[pos + k]);
    }
    lemma_line_end_walk(rest, 0, end - pos);
}

proof fn lemma_line_end_walk(s: Seq<char>, from: int, e: int)
    requires
        0 <= from <= e <= s.len(),
        forall|k: int| from <= k < e ==> s[k] != '\n',
        e == s.len() || s[e] == '\n',
    ensures
        line_end(s, from) == e,
    decreases e - from,
{
    if from < e {
        lemma_line_end_walk(s, from + 1, e);
    }
}


// ---------------------------------------------------------------------------------------
// Fields and camera metadata
// ---------------------------------------------------------------------------------------

/// The value of the last field with the key (a later field replaces an earlier one).
pub open spec fn field_value(fields: Fields, key: Seq<char>) -> Option<Seq<char>>
    decreases fields.len(),
{
    if fields.len() == 0 {
        None
    } else if fields.last().0 == key {
        Some(fields.last().1)
    } else {
        field_value(fields.drop_last(), key)
    }
}

/// A field's value, trimmed, when it is not empty.
pub open spec fn string_field_spec(fields: Fields, key: Seq<char>) -> Option<Seq<char>> {
    match field_value(fields, key) {
        Some(v) => if trim_spec(v).len() > 0 {
            Some(trim_spec(v))
        } else {
            None
        },
        None => None,
    }
}

impl DeviceInfo {
    /// The value of a field, if the block has it.
    pub fn get(&self, key: &str) -> (res: Option<&String>)
        ensures
            match res {
                Some(v) => field_value(fields_view(self.fields@), key@) == Some(v@),
                None => field_value(fields_view(self.fields@), key@) is None,
            },
    {
        let ghost fv = fields_view(self.fields@);
        let mut i = self.fields.len();
        assert(fv.take(i as int) =~= fv);
        while i > 0
            invariant
                i <= self.fields@.len(),
                fv == fields_view(self.fields@),
                field_value(fv, key@) == field_value(fv.take(i as int), key@),
            decreases i,
        {
            proof {
                assert(fv.take(i as int).drop_last() =~= fv.take(i - 1));
                assert(fv.take(i as int).last() == (self.fields@[i - 1].0@, self.fields@[i - 1].1@));
            }
            if str_eq(self.fields[i - 1].0.as_str(), key) {
                return Some(&self.fields[i - 1].1);
            }
            i -= 1;
        }
        None
    }
}

/// A field's value, trimmed, when the block has it and it is not empty.
pub fn string_field(info: &DeviceInfo, field: &str) -> (res: Option<String>)
    ensures
        match res {
            Some(v) => string_field_spec(fields_view(info.fields@), field@) == Some(v@),
            None => string_field_spec(fields_view(info.fields@), field@) is None,
        },
{
    match info.get(field) {
        Some(v) => {
            let t = trim(v.as_str());
            if t.unicode_len() > 0 {
                Some(t)
            } else {
                None
            }
        },
        None => None,
    }
}

/// The text of `str::to_uppercase` applied to `s`.
pub uninterp spec fn uppercase_text(s: Seq<char>) -> Seq<char>;

/// Upper case of a text (std's `str::to_uppercase`).
///
/// Trusted: std maps each character to its Unicode upper case; that mapping is named
/// (`uppercase_text`), not restated.
#[verifier::external_body]
fn to_uppercase(s: &str) -> (res: String)
    ensures
        res@ == uppercase_text(s@),
{
    s.to_uppercase()
}

/// `s` with every `from` replaced by the text `to`.
pub open spec fn replace_char(s: Seq<char>, from: char, to: Seq<char>) -> Seq<char>
    decreases s.len(),
{
    if s.len() == 0 {
        Seq::empty()
    } else {
        replace_char(s.drop_last(), from, to) + if s.last() == from {
            to
        } else {
            seq![s.last()]
        }
    }
}

fn replace_chars(s: &str, from: char, to: &str) -> (res: String)
    ensures
        res@ == replace_char(s@, from, to@),
{
    let chars = chars_of(s);
    let mut res = String::new();
    let mut i: usize = 0;
    assert(chars@.take(0) =~= Seq::<char>::empty());
    while i < chars.len()
        invariant
            i <= chars@.len(),
            chars@ == s@,
            res@ == replace_char(chars@.take(i as int), from, to@),
        decreases chars@.len() - i,
    {
        proof {
            assert(chars@.take(i as int + 1).drop_last() =~= chars@.take(i as int));
            assert(chars@.take(i as int + 1).last() == chars@[i as int]);
        }
        if chars[i] == from {
            res.append(to);
        } else {
            push_char(&mut res, chars[i]);
        }
        i += 1;
    }
    assert(chars@.take(chars@.len() as int) =~= chars@);
    res
}

/// The display model of a RealSense device name: a name already starting with
/// `RealSense ` is kept; otherwise the `realsense_` prefix is dropped, underscores become
/// spaces, and the rest is upper-cased after `RealSense `.
pub open spec fn model_name_spec(raw: Seq<char>) -> Seq<char> {
    if spec_starts_with(raw, "RealSense "@) {
        raw
    } else {
        let model = if spec_starts_with(raw, "realsense_"@) {
            raw.subrange(10, raw.len() as int)
        } else {
            raw
        };
        "RealSense "@ + uppercase_text(replace_char(model, '_', " "@))
    }
}

/// The display model of a RealSense device name.
pub fn realsense_model_name(raw: &str) -> (res: String)
    ensures
        res@ == model_name_spec(raw@),
{
    proof {
        reveal_strlit("RealSense ");
        reveal_strlit("realsense_");
    }
    if starts_with(raw, "RealSense ") {
        return owned(raw);
    }
    let chars = chars_of(raw);
    let model = if starts_with(raw, "realsense_") {
        string_of(&chars, 10, chars.len())
    } else {
        owned(raw)
    };
    let spaced = replace_chars(model.as_str(), '_', " ");
    let upper = to_uppercase(spaced.as_str());
    let mut res = owned("RealSense ");
    res.append(upper.as_str());
    res
}

/// A ROS camera source as the perception node lists it (its depth scale is kept beside
/// it).
pub struct DepthCameraSource {
    pub source_id: String,
    pub display_name: String,
    pub driver_id: String,
    pub device_model: Option<String>,
    pub serial_number: Option<String>,
    pub firmware_version: Option<String>,
    pub connection_type: Option<String>,
    pub physical_port: Option<String>,
    pub sensors: Vec<String>,
    pub color_stream: String,
    pub depth_stream: String,
    pub camera_info_stream: String,
    pub calibrated: bool,
}

pub open spec fn opt_view(value: Option<String>) -> Option<Seq<char>> {
    match value {
        Some(s) => Some(s@),
        None => None,
    }
}

/// `s` without its leading `c` characters (`str::trim_start_matches`).
pub open spec fn skip_leading(s: Seq<char>, c: char) -> Seq<char>
    decreases s.len(),
{
    if s.len() > 0 && s[0] == c {
        skip_leading(s.drop_first(), c)
    } else {
        s
    }
}

fn skip_leading_char(s: &str, c: char) -> (res: String)
    ensures
        res@ == skip_leading(s@, c),
{
    let chars = chars_of(s);
    let mut i: usize = 0;
    assert(chars@.subrange(0, chars@.len() as int) =~= chars@);
    while i < chars.len() && chars[i] == c
        invariant
            i <= chars@.len(),
            chars@ == s@,
            skip_leading(s@, c) == skip_leading(chars@.subrange(i as int, chars@.len() as int), c),
        decreases chars@.len() - i,
    {
        assert(chars@.subrange(i as int, chars@.len() as int).drop_first() =~= chars@.subrange(i + 1, chars@.len() as int));
        i += 1;
    }
    assert(chars@.subrange(0, chars@.len() as int) =~= chars@);
    string_of(&chars, i, chars.len())
}

/// `s` is the source of the ROS camera namespace `id`, before any device metadata.
pub open spec fn is_camera_source(s: DepthCameraSource, id: Seq<char>) -> bool {
    &&& s.source_id@ == id
    &&& s.display_name@ == replace_char(skip_leading(id, '/'), '/', " / "@)
    &&& s.driver_id@ == "ros2"@
    &&& s.device_model is None
    &&& s.serial_number is None
    &&& s.firmware_version is None
    &&& s.connection_type is None
    &&& s.physical_port is None
    &&& s.sensors@.len() == 0
    &&& s.color_stream@ == id + "/color/image_raw"@
    &&& s.depth_stream@ == id + "/aligned_depth_to_color/image_raw"@
    &&& s.camera_info_stream@ == id + "/aligned_depth_to_color/camera_info"@
    &&& !s.calibrated
}

/// A ROS camera namespace as a source: named after its path (leading `/` dropped,
/// `/` shown as ` / `), with its colour, aligned depth and camera-info topics.
pub fn camera_source(source_id: String) -> (res: DepthCameraSource)
    ensures
        is_camera_source(res, source_id@),
{
    let trimmed = skip_leading_char(source_id.as_str(), '/');
    let display_name = replace_chars(trimmed.as_str(), '/', " / ");
    let mut color = source_id.clone();
    color.append("/color/image_raw");
    let mut depth = source_id.clone();
    depth.append("/aligned_depth_to_color/image_raw");
    let mut info = source_id.clone();
    info.append("/aligned_depth_to_color/camera_info");
    DepthCameraSource {
        source_id,
        display_name,
        driver_id: owned("ros2"),
        device_model: None,
        serial_number: None,
        firmware_version: None,
        connection_type: None,
        physical_port: None,
        sensors: Vec::new(),
        color_stream: color,
        depth_stream: depth,
        camera_info_stream: info,
        calibrated: false,
    }
}

/// `after` is `before` with the metadata of the RealSense device block `info`.
pub open spec fn device_info_applied(before: DepthCameraSource, after: DepthCameraSource, info: DeviceInfo) -> bool {
    let f = fields_view(info.fields@);
    let model = match string_field_spec(f, "device_name"@) {
        Some(raw) => Some(model_name_spec(raw)),
        None => None,
    };
    &&& opt_view(after.device_model) == model
    &&& opt_view(after.serial_number) == string_field_spec(f, "serial_number"@)
    &&& opt_view(after.firmware_version) == string_field_spec(f, "firmware_version"@)
    &&& opt_view(after.connection_type) == match string_field_spec(f, "usb_type_descriptor"@) {
        Some(v) => Some("USB "@ + v),
        None => None,
    }
    &&& opt_view(after.physical_port) == string_field_spec(f, "physical_port"@)
    &&& after.sensors@.map_values(|s: String| s@) == seq!["color"@, "depth"@]
    &&& after.display_name@ == match model {
        Some(m) => match string_field_spec(f, "serial_number"@) {
            Some(serial) => m + " · "@ + serial,
            None => m,
        },
        None => before.display_name@,
    }
    &&& after.source_id == before.source_id
    &&& after.color_stream == before.color_stream
    &&& after.depth_stream == before.depth_stream
    &&& after.camera_info_stream == before.camera_info_stream
    &&& after.calibrated == before.calibrated
    &&& after.driver_id == before.driver_id
}

/// Fills a source's device metadata from its RealSense device block: model (display
/// form), serial, firmware, `USB <version>` connection, port and the colour and depth
/// sensors; with a model, the source is named `<model> · <serial>` (or the model).
pub fn apply_realsense_device_info(source: &mut DepthCameraSource, info: &DeviceInfo)
    ensures
        device_info_applied(*old(source), *final(source), *info),
{
    source.device_model = match string_field(info, "device_name") {
        Some(raw) => Some(realsense_model_name(raw.as_str())),
        None => None,
    };
    source.serial_number = string_field(info, "serial_number");
    source.firmware_version = string_field(info, "firmware_version");
    source.connection_type = match string_field(info, "usb_type_descriptor") {
        Some(v) => {
            let mut c = owned("USB ");
            c.append(v.as_str());
            Some(c)
        },
        None => None,
    };
    source.physical_port = string_field(info, "physical_port");
    let sensors = vec![owned("color"), owned("depth")];
    assert(sensors@.map_values(|s: String| s@) =~= seq!["color"@, "depth"@]);
    source.sensors = sensors;
    let name = match &source.device_model {
        Some(model) => match &source.serial_number {
            Some(serial) => {
                let mut n = model.clone();
                n.append(" · ");
                n.append(serial.as_str());
                Some(n)
            },
            None => Some(model.clone()),
        },
        None => None,
    };
    match name {
        Some(n) => {
            source.display_name = n;
        },
        None => {},
    }
}

} // verus!
