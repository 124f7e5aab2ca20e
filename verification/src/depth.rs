//! Bounds on how deeply a TOML or YAML text nests, read from its bytes
//! before it is parsed: the parsers recurse once per level of nesting.
use vstd::prelude::*;
use vstd::utf8::encode_utf8;

verus! {

/// Where the scan of a TOML text stands: outside any string or comment, or
/// somewhere inside one.
#[derive(Clone, Copy, PartialEq, Eq, Structural)]
pub enum TomlMode {
    Normal,
    Comment,
    /// Just after the opening `"` of a basic string.
    BasicFresh,
    Basic,
    BasicEscape,
    /// Just after `""`: an empty string, or the opening of a multi-line one.
    BasicPair,
    MultiBasic,
    MultiBasicEscape,
    /// After the closing `"""` of a multi-line basic string, where up to two
    /// more quotes still belong to the string.
    MultiBasicClose,
    LiteralFresh,
    Literal,
    LiteralPair,
    MultiLiteral,
    MultiLiteralClose,
}

/// The state of the scan of a TOML text.
pub struct TomlScan {
    pub mode: TomlMode,
    /// Quotes seen in a row inside a multi-line string, or after its close.
    pub quotes: nat,
    /// The open arrays (`false`) and inline tables (`true`), innermost last,
    /// each with the key dots counted when it opened.
    pub levels: Seq<(bool, nat)>,
    /// The dots of the keys on the path to the current position.
    pub dots: nat,
    /// Whether a key may come next.
    pub in_key: bool,
    /// Whether the line so far holds only blanks, outside any bracket.
    pub line_start: bool,
    /// Whether a table header is being read.
    pub in_header: bool,
    /// The dots of the table header being read.
    pub header_dots: nat,
    /// Twice the number of segments of the current table header.
    pub header: nat,
    /// The greatest nesting measure seen so far.
    pub peak: nat,
}

/// The nesting measure of a scan state: the tables that the header opens
/// (two levels for each segment, which covers arrays of tables), two levels
/// for each open array or inline table (the container and its key), and the
/// segments of the keys on the way.
pub open spec fn toml_measure(s: TomlScan) -> nat {
    s.header + 2 * s.header_dots + 2 * s.levels.len() + s.dots + 1
}

/// A byte outside any string or comment.
pub open spec fn toml_normal(s: TomlScan, c: u8) -> TomlScan {
    let s = TomlScan { mode: TomlMode::Normal, ..s };
    if c == 10 {
        if s.levels.len() == 0 {
            TomlScan { dots: 0, in_key: true, line_start: true, ..s }
        } else {
            s
        }
    } else if c == 32 || c == 9 || c == 13 || c >= 128 {
        s
    } else if c == 35 {
        TomlScan { mode: TomlMode::Comment, ..s }
    } else if c == 34 {
        TomlScan { mode: TomlMode::BasicFresh, line_start: false, ..s }
    } else if c == 39 {
        TomlScan { mode: TomlMode::LiteralFresh, line_start: false, ..s }
    } else if c == 91 {
        let header = s.levels.len() == 0 && s.line_start;
        TomlScan {
            levels: s.levels.push((false, s.dots)),
            in_key: false,
            line_start: false,
            in_header: header || s.in_header,
            header_dots: if header {
                0
            } else {
                s.header_dots
            },
            ..s
        }
    } else if c == 123 {
        TomlScan { levels: s.levels.push((true, s.dots)), in_key: true, line_start: false, ..s }
    } else if c == 93 || c == 125 {
        if s.levels.len() == 0 {
            TomlScan { line_start: false, ..s }
        } else {
            let closes_header = s.in_header && s.levels.len() == 1;
            TomlScan {
                levels: s.levels.drop_last(),
                dots: s.levels.last().1,
                in_key: false,
                line_start: false,
                in_header: s.in_header && !closes_header,
                header_dots: if closes_header {
                    0
                } else {
                    s.header_dots
                },
                header: if closes_header {
                    2 * (s.header_dots + 1)
                } else {
                    s.header
                },
                ..s
            }
        }
    } else if c == 44 {
        if s.levels.len() == 0 {
            TomlScan { line_start: false, ..s }
        } else {
            TomlScan {
                dots: s.levels.last().1,
                in_key: s.levels.last().0,
                line_start: false,
                ..s
            }
        }
    } else if c == 61 {
        TomlScan { in_key: false, line_start: false, ..s }
    } else if c == 46 {
        if s.in_header {
            TomlScan { header_dots: s.header_dots + 1, line_start: false, ..s }
        } else if s.in_key {
            TomlScan { dots: s.dots + 1, line_start: false, ..s }
        } else {
            TomlScan { line_start: false, ..s }
        }
    } else {
        TomlScan { line_start: false, ..s }
    }
}

/// One byte of the scan, as the tokenizer of toml 0.5 reads strings and
/// comments; the peak is not yet updated.
pub open spec fn toml_move(s: TomlScan, c: u8) -> TomlScan {
    match s.mode {
        TomlMode::Normal => toml_normal(s, c),
        TomlMode::Comment => if c == 10 {
            toml_normal(s, c)
        } else {
            s
        },
        TomlMode::BasicFresh => if c == 34 {
            TomlScan { mode: TomlMode::BasicPair, ..s }
        } else if c == 92 {
            TomlScan { mode: TomlMode::BasicEscape, ..s }
        } else {
            TomlScan { mode: TomlMode::Basic, ..s }
        },
        TomlMode::Basic => if c == 34 {
            TomlScan { mode: TomlMode::Normal, ..s }
        } else if c == 92 {
            TomlScan { mode: TomlMode::BasicEscape, ..s }
        } else {
            s
        },
        TomlMode::BasicEscape => TomlScan { mode: TomlMode::Basic, ..s },
        TomlMode::BasicPair => if c == 34 {
            TomlScan { mode: TomlMode::MultiBasic, quotes: 0, ..s }
        } else {
            toml_normal(s, c)
        },
        TomlMode::MultiBasic => if c == 92 {
            TomlScan { mode: TomlMode::MultiBasicEscape, quotes: 0, ..s }
        } else if c == 34 {
            if s.quotes >= 2 {
                TomlScan { mode: TomlMode::MultiBasicClose, quotes: 0, ..s }
            } else {
                TomlScan { quotes: s.quotes + 1, ..s }
            }
        } else {
            TomlScan { quotes: 0, ..s }
        },
        TomlMode::MultiBasicEscape => TomlScan { mode: TomlMode::MultiBasic, quotes: 0, ..s },
        TomlMode::MultiBasicClose => if c == 34 && s.quotes < 2 {
            TomlScan { quotes: s.quotes + 1, ..s }
        } else {
            toml_normal(s, c)
        },
        TomlMode::LiteralFresh => if c == 39 {
            TomlScan { mode: TomlMode::LiteralPair, ..s }
        } else {
            TomlScan { mode: TomlMode::Literal, ..s }
        },
        TomlMode::Literal => if c == 39 {
            TomlScan { mode: TomlMode::Normal, ..s }
        } else {
            s
        },
        TomlMode::LiteralPair => if c == 39 {
            TomlScan { mode: TomlMode::MultiLiteral, quotes: 0, ..s }
        } else {
            toml_normal(s, c)
        },
        TomlMode::MultiLiteral => if c == 39 {
            if s.quotes >= 2 {
                TomlScan { mode: TomlMode::MultiLiteralClose, quotes: 0, ..s }
            } else {
                TomlScan { quotes: s.quotes + 1, ..s }
            }
        } else {
            TomlScan { quotes: 0, ..s }
        },
        TomlMode::MultiLiteralClose => if c == 39 && s.quotes < 2 {
            TomlScan { quotes: s.quotes + 1, ..s }
        } else {
            toml_normal(s, c)
        },
    }
}

/// One byte of the scan, with the peak updated.
pub open spec fn toml_step(s: TomlScan, c: u8) -> TomlScan {
    let t = toml_move(s, c);
    TomlScan {
        peak: if toml_measure(t) > s.peak {
            toml_measure(t)
        } else {
            s.peak
        },
        ..t
    }
}

/// The state at the start of a text.
pub open spec fn toml_start() -> TomlScan {
    TomlScan {
        mode: TomlMode::Normal,
        quotes: 0,
        levels: Seq::empty(),
        dots: 0,
        in_key: true,
        line_start: true,
        in_header: false,
        header_dots: 0,
        header: 0,
        peak: 1,
    }
}

/// The state after scanning the bytes `b`.
pub open spec fn toml_scan(b: Seq<u8>) -> TomlScan
    decreases b.len(),
{
    if b.len() == 0 {
        toml_start()
    } else {
        toml_step(toml_scan(b.drop_last()), b.last())
    }
}

/// How deeply the TOML text with bytes `b` nests, by the measure: at least
/// the depth to which toml 0.5 recurses to parse it and build its values.
pub open spec fn toml_depth(b: Seq<u8>) -> nat {
    toml_scan(b).peak
}

/// Every count of a scan state is within its peak.
pub open spec fn toml_bounded(s: TomlScan) -> bool {
    &&& toml_measure(s) <= s.peak
    &&& s.quotes <= 2
    &&& forall|i: int| 0 <= i < s.levels.len() ==> #[trigger] s.levels[i].1 <= s.peak
}

proof fn lemma_toml_step_bounded(s: TomlScan, c: u8)
    requires
        toml_bounded(s),
    ensures
        toml_bounded(toml_step(s, c)),
        toml_step(s, c).peak >= s.peak,
{
    let t = toml_step(s, c);
    assert forall|i: int| 0 <= i < t.levels.len() implies #[trigger] t.levels[i].1 <= t.peak by {
        if i < s.levels.len() {
            assert(t.levels[i] == s.levels[i]);
        }
    }
}

proof fn lemma_toml_scan_bounded(b: Seq<u8>)
    ensures
        toml_bounded(toml_scan(b)),
    decreases b.len(),
{
    if b.len() > 0 {
        lemma_toml_scan_bounded(b.drop_last());
        lemma_toml_step_bounded(toml_scan(b.drop_last()), b.last());
    }
}

/// The peak of a text is at least that of each of its prefixes.
proof fn lemma_toml_prefix(b: Seq<u8>, i: int)
    requires
        0 <= i <= b.len(),
    ensures
        toml_scan(b.take(i)).peak <= toml_depth(b),
    decreases b.len() - i,
{
    if i < b.len() {
        assert(b.take(i + 1).drop_last() =~= b.take(i));
        lemma_toml_scan_bounded(b.take(i));
        lemma_toml_step_bounded(toml_scan(b.take(i)), b[i]);
        lemma_toml_prefix(b, i + 1);
    } else {
        assert(b.take(i) =~= b);
    }
}

/// The scan state, as the program holds it.
pub struct TomlScanner {
    pub mode: TomlMode,
    pub quotes: usize,
    pub levels: Vec<(bool, usize)>,
    pub dots: usize,
    pub in_key: bool,
    pub line_start: bool,
    pub in_header: bool,
    pub header_dots: usize,
    pub header: usize,
    pub peak: usize,
}

impl View for TomlScanner {
    type V = TomlScan;

    open spec fn view(&self) -> TomlScan {
        TomlScan {
            mode: self.mode,
            quotes: self.quotes as nat,
            levels: self.levels@.map_values(|e: (bool, usize)| (e.0, e.1 as nat)),
            dots: self.dots as nat,
            in_key: self.in_key,
            line_start: self.line_start,
            in_header: self.in_header,
            header_dots: self.header_dots as nat,
            header: self.header as nat,
            peak: self.peak as nat,
        }
    }
}

/// The exec form of [`toml_normal`].
fn toml_normal_exec(s: &mut TomlScanner, c: u8)
    requires
        toml_bounded(old(s)@),
        old(s)@.peak <= 4096,
    ensures
        final(s)@ == toml_normal(old(s)@, c),
{
    let ghost s0 = s@;
    s.mode = TomlMode::Normal;
    if c == 10 {
        if s.levels.len() == 0 {
            s.dots = 0;
            s.in_key = true;
            s.line_start = true;
        }
    } else if c == 32 || c == 9 || c == 13 || c >= 128 {
    } else if c == 35 {
        s.mode = TomlMode::Comment;
    } else if c == 34 {
        s.mode = TomlMode::BasicFresh;
        s.line_start = false;
    } else if c == 39 {
        s.mode = TomlMode::LiteralFresh;
        s.line_start = false;
    } else if c == 91 {
        let header = s.levels.len() == 0 && s.line_start;
        let d = s.dots;
        s.levels.push((false, d));
        s.in_key = false;
        s.line_start = false;
        if header {
            s.in_header = true;
            s.header_dots = 0;
        }
        assert(s@.levels =~= s0.levels.push((false, s0.dots)));
    } else if c == 123 {
        let d = s.dots;
        s.levels.push((true, d));
        s.in_key = true;
        s.line_start = false;
        assert(s@.levels =~= s0.levels.push((true, s0.dots)));
    } else if c == 93 || c == 125 {
        s.line_start = false;
        if s.levels.len() > 0 {
            let closes_header = s.in_header && s.levels.len() == 1;
            let last = s.levels.pop().unwrap();
            assert(s@.levels =~= s0.levels.drop_last());
            s.dots = last.1;
            s.in_key = false;
            if closes_header {
                s.header = 2 * (s.header_dots + 1);
                s.header_dots = 0;
                s.in_header = false;
            }
        }
    } else if c == 44 {
        s.line_start = false;
        if s.levels.len() > 0 {
            let n = s.levels.len();
            let last = s.levels[n - 1];
            s.dots = last.1;
            s.in_key = last.0;
        }
    } else if c == 61 {
        s.in_key = false;
        s.line_start = false;
    } else if c == 46 {
        s.line_start = false;
        if s.in_header {
            s.header_dots = s.header_dots + 1;
        } else if s.in_key {
            s.dots = s.dots + 1;
        }
    } else {
        s.line_start = false;
    }
}

/// The exec form of [`toml_move`].
#[verifier::rlimit(40)]
fn toml_move_exec(s: &mut TomlScanner, c: u8)
    requires
        toml_bounded(old(s)@),
        old(s)@.peak <= 4096,
    ensures
        final(s)@ == toml_move(old(s)@, c),
{
    match s.mode {
        TomlMode::Normal => toml_normal_exec(s, c),
        TomlMode::Comment => {
            if c == 10 {
                toml_normal_exec(s, c);
            }
        },
        TomlMode::BasicFresh => {
            if c == 34 {
                s.mode = TomlMode::BasicPair;
            } else if c == 92 {
                s.mode = TomlMode::BasicEscape;
            } else {
                s.mode = TomlMode::Basic;
            }
        },
        TomlMode::Basic => {
            if c == 34 {
                s.mode = TomlMode::Normal;
            } else if c == 92 {
                s.mode = TomlMode::BasicEscape;
            }
        },
        TomlMode::BasicEscape => {
            s.mode = TomlMode::Basic;
        },
        TomlMode::BasicPair => {
            if c == 34 {
                s.mode = TomlMode::MultiBasic;
                s.quotes = 0;
            } else {
                toml_normal_exec(s, c);
            }
        },
        TomlMode::MultiBasic => {
            if c == 92 {
                s.mode = TomlMode::MultiBasicEscape;
                s.quotes = 0;
            } else if c == 34 {
                if s.quotes >= 2 {
                    s.mode = TomlMode::MultiBasicClose;
                    s.quotes = 0;
                } else {
                    s.quotes = s.quotes + 1;
                }
            } else {
                s.quotes = 0;
            }
        },
        TomlMode::MultiBasicEscape => {
            s.mode = TomlMode::MultiBasic;
            s.quotes = 0;
        },
        TomlMode::MultiBasicClose => {
            if c == 34 && s.quotes < 2 {
                s.quotes = s.quotes + 1;
            } else {
                toml_normal_exec(s, c);
            }
        },
        TomlMode::LiteralFresh => {
            if c == 39 {
                s.mode = TomlMode::LiteralPair;
            } else {
                s.mode = TomlMode::Literal;
            }
        },
        TomlMode::Literal => {
            if c == 39 {
                s.mode = TomlMode::Normal;
            }
        },
        TomlMode::LiteralPair => {
            if c == 39 {
                s.mode = TomlMode::MultiLiteral;
                s.quotes = 0;
            } else {
                toml_normal_exec(s, c);
            }
        },
        TomlMode::MultiLiteral => {
            if c == 39 {
                if s.quotes >= 2 {
                    s.mode = TomlMode::MultiLiteralClose;
                    s.quotes = 0;
                } else {
                    s.quotes = s.quotes + 1;
                }
            } else {
                s.quotes = 0;
            }
        },
        TomlMode::MultiLiteralClose => {
            if c == 39 && s.quotes < 2 {
                s.quotes = s.quotes + 1;
            } else {
                toml_normal_exec(s, c);
            }
        },
    }
}

/// The exec form of [`toml_step`].
fn toml_step_exec(s: &mut TomlScanner, c: u8)
    requires
        toml_bounded(old(s)@),
        old(s)@.peak <= 4096,
    ensures
        final(s)@ == toml_step(old(s)@, c),
{
    toml_move_exec(s, c);
    let m: usize = s.header + 2 * s.header_dots + 2 * s.levels.len() + s.dots + 1;
    if m > s.peak {
        s.peak = m;
    }
}

/// Whether the TOML text `text` nests no deeper than `limit` by the measure
/// of [`toml_depth`].
pub fn toml_depth_within(text: &str, limit: usize) -> (r: bool)
    requires
        1 <= limit <= 4096,
    ensures
        r == (toml_depth(encode_utf8(text@)) <= limit),
{
    let bytes = text.as_bytes();
    let ghost b = bytes@;
    let n: usize = bytes.len();
    let mut s = TomlScanner {
        mode: TomlMode::Normal,
        quotes: 0,
        levels: Vec::new(),
        dots: 0,
        in_key: true,
        line_start: true,
        in_header: false,
        header_dots: 0,
        header: 0,
        peak: 1,
    };
    assert(s@.levels =~= Seq::<(bool, nat)>::empty());
    assert(s@ == toml_start());
    let mut i: usize = 0;
    while i < n
        invariant
            n == b.len(),
            b == encode_utf8(text@),
            bytes@ == b,
            i <= n,
            limit <= 4096,
            s@ == toml_scan(b.take(i as int)),
            s@.peak <= limit,
        decreases n - i,
    {
        proof {
            assert(b.take(i + 1).drop_last() =~= b.take(i as int));
            lemma_toml_scan_bounded(b.take(i as int));
        }
        toml_step_exec(&mut s, bytes[i]);
        i = i + 1;
        if s.peak > limit {
            proof {
                lemma_toml_prefix(b, i as int);
            }
            return false;
        }
    }
    assert(b.take(n as int) =~= b);
    true
}

/// The state of the scan of a YAML text.
pub struct YamlScan {
    /// Whether the line so far holds only blanks and indicators.
    pub in_lead: bool,
    /// The length of the line's leading blanks and indicators.
    pub lead: nat,
    /// Indicator characters read in a row, not yet known to be followed by
    /// a blank.
    pub run: nat,
    /// The greatest lead of the lines before.
    pub max_lead: nat,
    /// The characters opening a flow collection, counted up to 255.
    pub openers: nat,
}

/// Whether byte `c` separates an indicator from what follows.
pub open spec fn yaml_blank(c: u8) -> bool {
    c == 32 || c == 9 || c == 0
}

/// Whether byte `c` may be an indicator (`-`, `?`, `:`, `.`).
pub open spec fn yaml_indicator(c: u8) -> bool {
    c == 45 || c == 63 || c == 58 || c == 46
}

/// The lead of the current line, when it ends.
pub open spec fn yaml_line_lead(s: YamlScan) -> nat {
    if s.in_lead {
        s.lead + s.run
    } else {
        s.lead
    }
}

/// One byte of the scan of a YAML text.
pub open spec fn yaml_step(s: YamlScan, c: u8) -> YamlScan {
    let openers = if (c == 91 || c == 123) && s.openers < 255 {
        s.openers + 1
    } else {
        s.openers
    };
    if c == 10 || c == 13 {
        YamlScan {
            in_lead: true,
            lead: 0,
            run: 0,
            max_lead: if yaml_line_lead(s) > s.max_lead {
                yaml_line_lead(s)
            } else {
                s.max_lead
            },
            openers,
        }
    } else if !s.in_lead {
        YamlScan { openers, ..s }
    } else if yaml_blank(c) {
        YamlScan { lead: s.lead + s.run + 1, run: 0, openers, ..s }
    } else if yaml_indicator(c) {
        YamlScan { run: s.run + 1, openers, ..s }
    } else if (c == 0xef || c == 0xbb || c == 0xbf) && s.run == 0 {
        YamlScan { lead: s.lead + 1, openers, ..s }
    } else {
        YamlScan { in_lead: false, run: 0, openers, ..s }
    }
}

/// The state after scanning the bytes `b`.
pub open spec fn yaml_scan(b: Seq<u8>) -> YamlScan
    decreases b.len(),
{
    if b.len() == 0 {
        YamlScan { in_lead: true, lead: 0, run: 0, max_lead: 0, openers: 0 }
    } else {
        yaml_step(yaml_scan(b.drop_last()), b.last())
    }
}

/// The greatest lead of any line of a scanned text.
pub open spec fn yaml_max_lead(s: YamlScan) -> nat {
    if yaml_line_lead(s) > s.max_lead {
        yaml_line_lead(s)
    } else {
        s.max_lead
    }
}

/// How deeply the YAML text with bytes `b` nests, by the measure: at least
/// the depth to which yaml-rust recurses to load it. A block collection
/// opens at a column no greater than the lead of its line, and each open
/// column holds at most two (a mapping and a sequence in it at the same
/// column); the scanner of yaml-rust refuses more than 255 open flow
/// collections, and each holds at most two (a flow sequence and a single-pair
/// mapping in it).
pub open spec fn yaml_depth(b: Seq<u8>) -> nat {
    let s = yaml_scan(b);
    2 * (yaml_max_lead(s) + 1) + 2 * s.openers + 3
}

/// The part of the measure that a prefix already fixes.
pub open spec fn yaml_known(s: YamlScan) -> nat {
    if s.lead > s.max_lead {
        s.lead
    } else {
        s.max_lead
    }
}

proof fn lemma_yaml_prefix(b: Seq<u8>, i: int)
    requires
        0 <= i <= b.len(),
    ensures
        yaml_known(yaml_scan(b.take(i))) <= yaml_max_lead(yaml_scan(b)),
        yaml_scan(b.take(i)).openers <= yaml_scan(b).openers,
    decreases b.len() - i,
{
    if i < b.len() {
        assert(b.take(i + 1).drop_last() =~= b.take(i));
        lemma_yaml_prefix(b, i + 1);
    } else {
        assert(b.take(i) =~= b);
    }
}

/// Whether the YAML text `text` nests no deeper than `limit` by the measure
/// of [`yaml_depth`].
pub fn yaml_depth_within(text: &str, limit: usize) -> (r: bool)
    requires
        limit <= 4096,
    ensures
        r == (yaml_depth(encode_utf8(text@)) <= limit),
{
    let bytes = text.as_bytes();
    let ghost b = bytes@;
    let n: usize = bytes.len();
    let mut in_lead = true;
    let mut lead: usize = 0;
    let mut run: usize = 0;
    let mut max_lead: usize = 0;
    let mut openers: usize = 0;
    let mut i: usize = 0;
    while i < n
        invariant
            n == b.len(),
            b == encode_utf8(text@),
            bytes@ == b,
            i <= n,
            limit <= 4096,
            yaml_scan(b.take(i as int)) == (YamlScan {
                in_lead,
                lead: lead as nat,
                run: run as nat,
                max_lead: max_lead as nat,
                openers: openers as nat,
            }),
            lead + run <= i,
            max_lead <= limit,
            lead <= limit,
            openers <= 255,
        decreases n - i,
    {
        proof {
            assert(b.take(i + 1).drop_last() =~= b.take(i as int));
        }
        let c = bytes[i];
        if (c == 91 || c == 123) && openers < 255 {
            openers = openers + 1;
        }
        if c == 10 || c == 13 {
            let line_lead = if in_lead {
                lead + run
            } else {
                lead
            };
            if line_lead > max_lead {
                max_lead = line_lead;
            }
            in_lead = true;
            lead = 0;
            run = 0;
        } else if !in_lead {
        } else if c == 32 || c == 9 || c == 0 {
            lead = lead + run + 1;
            run = 0;
        } else if c == 45 || c == 63 || c == 58 || c == 46 {
            run = run + 1;
        } else if (c == 0xef || c == 0xbb || c == 0xbf) && run == 0 {
            lead = lead + 1;
        } else {
            in_lead = false;
            run = 0;
        }
        i = i + 1;
        if max_lead > limit || lead > limit {
            proof {
                lemma_yaml_prefix(b, i as int);
            }
            return false;
        }
    }
    assert(b.take(n as int) =~= b);
    let line_lead = if in_lead {
        lead + run
    } else {
        lead
    };
    let top = if line_lead > max_lead {
        line_lead
    } else {
        max_lead
    };
    if top > limit {
        return false;
    }
    2 * (top + 1) + 2 * openers + 3 <= limit
}

/// The bytes of `b` that open an array or an inline table (`[`, `{`).
pub open spec fn opener_count(b: Seq<u8>) -> nat
    decreases b.len(),
{
    if b.len() == 0 {
        0
    } else {
        opener_count(b.drop_last()) + if b.last() == 91 || b.last() == 123 {
            1nat
        } else {
            0nat
        }
    }
}

/// The dots (`.`) of `b`.
pub open spec fn dot_count(b: Seq<u8>) -> nat
    decreases b.len(),
{
    if b.len() == 0 {
        0
    } else {
        dot_count(b.drop_last()) + if b.last() == 46 {
            1nat
        } else {
            0nat
        }
    }
}

/// The shape a scan state keeps: a header being read is inside its bracket,
/// and the key dots saved by the open levels grow inwards up to the current
/// ones.
pub open spec fn toml_shaped(s: TomlScan) -> bool {
    &&& s.in_header ==> s.levels.len() >= 1
    &&& !s.in_header ==> s.header_dots == 0
    &&& forall|i: int, j: int|
        0 <= i < j < s.levels.len() ==> #[trigger] s.levels[i].1 <= #[trigger] s.levels[j].1
    &&& forall|i: int| 0 <= i < s.levels.len() ==> #[trigger] s.levels[i].1 <= s.dots
}

/// The sum that the measure adds one to.
pub open spec fn toml_load(s: TomlScan) -> nat {
    s.header + 2 * s.header_dots + 2 * s.levels.len() + s.dots
}

/// What a byte may add to the measure: two for an opening bracket or brace,
/// three for a dot, nothing for any other byte.
pub open spec fn toml_allowance(c: u8) -> nat {
    if c == 91 || c == 123 {
        2
    } else if c == 46 {
        3
    } else {
        0
    }
}

proof fn lemma_toml_normal_load(s: TomlScan, c: u8)
    requires
        toml_shaped(s),
    ensures
        toml_shaped(toml_normal(s, c)),
        toml_load(toml_normal(s, c)) <= toml_load(s) + toml_allowance(c),
{
    let t = toml_normal(s, c);
    if c == 91 || c == 123 {
        assert forall|i: int, j: int| 0 <= i < j < t.levels.len() implies #[trigger] t.levels[i].1
            <= #[trigger] t.levels[j].1 by {
            if j < s.levels.len() {
                assert(t.levels[i] == s.levels[i] && t.levels[j] == s.levels[j]);
            } else {
                assert(t.levels[i] == s.levels[i]);
            }
        }
        assert forall|i: int| 0 <= i < t.levels.len() implies #[trigger] t.levels[i].1 <= t.dots by {
            if i < s.levels.len() {
                assert(t.levels[i] == s.levels[i]);
            }
        }
    } else if (c == 93 || c == 125) && s.levels.len() > 0 {
        let n = s.levels.len() - 1;
        assert(s.levels.last() == s.levels[n]);
        assert forall|i: int, j: int| 0 <= i < j < t.levels.len() implies #[trigger] t.levels[i].1
            <= #[trigger] t.levels[j].1 by {
            assert(t.levels[i] == s.levels[i] && t.levels[j] == s.levels[j]);
        }
        assert forall|i: int| 0 <= i < t.levels.len() implies #[trigger] t.levels[i].1 <= t.dots by {
            assert(t.levels[i] == s.levels[i]);
            assert(s.levels[i].1 <= s.levels[n].1);
        }
        assert(s.levels[n].1 <= s.dots);
    } else if c == 44 && s.levels.len() > 0 {
        let n = s.levels.len() - 1;
        assert(s.levels.last() == s.levels[n]);
        assert forall|i: int| 0 <= i < t.levels.len() implies #[trigger] t.levels[i].1 <= t.dots by {
            if i < n {
                assert(s.levels[i].1 <= s.levels[n].1);
            }
        }
        assert(s.levels[n].1 <= s.dots);
    }
}

#[verifier::rlimit(40)]
proof fn lemma_toml_move_load(s: TomlScan, c: u8)
    requires
        toml_shaped(s),
    ensures
        toml_shaped(toml_move(s, c)),
        toml_load(toml_move(s, c)) <= toml_load(s) + toml_allowance(c),
{
    let n = TomlScan { mode: TomlMode::Normal, ..s };
    assert(toml_shaped(n));
    assert(toml_normal(s, c) == toml_normal(n, c));
    lemma_toml_normal_load(n, c);
    match s.mode {
        TomlMode::Normal => {},
        TomlMode::Comment => {},
        TomlMode::BasicPair => {},
        TomlMode::MultiBasicClose => {},
        TomlMode::LiteralPair => {},
        TomlMode::MultiLiteralClose => {},
        _ => {
            assert(toml_load(toml_move(s, c)) == toml_load(s));
        },
    }
}

proof fn lemma_toml_scan_load(b: Seq<u8>)
    ensures
        toml_shaped(toml_scan(b)),
        toml_load(toml_scan(b)) <= 2 * opener_count(b) + 3 * dot_count(b),
        toml_scan(b).peak <= 1 + 2 * opener_count(b) + 3 * dot_count(b),
    decreases b.len(),
{
    if b.len() > 0 {
        lemma_toml_scan_load(b.drop_last());
        lemma_toml_move_load(toml_scan(b.drop_last()), b.last());
    }
}

/// The nesting measure of a TOML text grows only with its structure: it is
/// at most one more than twice its opening brackets and braces and three
/// times its dots. Whatever else a text holds (strings, numbers, comments,
/// any number of lines) adds nothing.
pub proof fn law_toml_depth_bounded(b: Seq<u8>)
    ensures
        toml_depth(b) <= 1 + 2 * opener_count(b) + 3 * dot_count(b),
{
    lemma_toml_scan_load(b);
}

} // verus!
