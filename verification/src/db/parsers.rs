//! The registry grammar: line-oriented, with literal tab characters as
//! nesting depth, `#` comments, and `C`-marked class entries at the top
//! level. Parsing is strict: the first malformed, misplaced or duplicate
//! entry fails the whole parse and reports the offending line.
use vstd::prelude::*;

use std::collections::HashMap;

use super::DbV;
use super::DeviceClass;
use super::DeviceClassV;
use super::Subclass;
use super::SubclassV;
use super::Vendor;
use super::VendorV;
use crate::text::chars_of_str;
use crate::text::copy_range;
use crate::text::exec_is_line_break;
use crate::text::hex_run_len;
use crate::text::hex_value;
use crate::text::is_line_break;
use crate::text::is_space;
use crate::text::lemma_hex_run_len_digits;
use crate::text::parse_hex_u16;
use crate::text::scan_hex_run;
use crate::text::scan_space_run;
use crate::text::space_run_len;
use crate::text::string_from_chars;

verus! {

/// Length of the run of tab characters starting at `from`.
pub open spec fn tab_run_len(s: Seq<char>, from: int) -> int
    decreases s.len() - from,
{
    if from < 0 || from >= s.len() || s[from] != '\t' {
        0
    } else {
        1 + tab_run_len(s, from + 1)
    }
}

fn scan_tab_run(s: &Vec<char>, from: usize) -> (e: usize)
    requires
        from <= s@.len(),
    ensures
        from <= e <= s@.len(),
        e - from == tab_run_len(s@, from as int),
    decreases s@.len() - from,
{
    if from < s.len() && s[from] == '\t' {
        scan_tab_run(s, from + 1)
    } else {
        from
    }
}

/// The input split into lines: `\n`, `\r` and the pair `\r\n` each end
/// one line, so reported line numbers match the text.
pub open spec fn lines_rec(s: Seq<char>, i: int, cur: Seq<char>, acc: Seq<Seq<char>>) -> Seq<
    Seq<char>,
>
    decreases s.len() - i,
{
    if i < 0 || i >= s.len() {
        acc.push(cur)
    } else if s[i] == '\r' && i + 1 < s.len() && s[i + 1] == '\n' {
        lines_rec(s, i + 2, Seq::empty(), acc.push(cur))
    } else if is_line_break(s[i]) {
        lines_rec(s, i + 1, Seq::empty(), acc.push(cur))
    } else {
        lines_rec(s, i + 1, cur.push(s[i]), acc)
    }
}

pub open spec fn lines_of(s: Seq<char>) -> Seq<Seq<char>> {
    lines_rec(s, 0, Seq::empty(), Seq::empty())
}

/// The shape of one registry line.
pub enum SpecLine {
    /// An empty line (these also arise between consecutive break characters).
    Blank,
    /// A comment line, starting with `#`.
    Note,
    /// An entry: `depth` leading tabs, an optional top-level `C` marker,
    /// a hexadecimal id, at least one space or tab, then the name (the
    /// rest of the line, which may be empty).
    Entry { depth: int, marker: bool, id: u16, name: Seq<char> },
    /// A line that fits none of the above.
    Bad,
}

pub open spec fn classify_spec(l: Seq<char>) -> SpecLine {
    if l.len() == 0 {
        SpecLine::Blank
    } else if l[0] == '#' {
        SpecLine::Note
    } else {
        let depth = tab_run_len(l, 0);
        if depth > 2 {
            SpecLine::Bad
        } else {
            let marker = depth == 0 && l.len() >= 2 && l[0] == 'C' && is_space(l[1]);
            let start = if marker {
                1 + space_run_len(l, 1)
            } else {
                depth
            };
            let h = hex_run_len(l, start);
            if h == 0 {
                SpecLine::Bad
            } else if hex_value(l.subrange(start, start + h)) > 0xFFFF {
                SpecLine::Bad
            } else {
                let sp = space_run_len(l, start + h);
                if sp == 0 {
                    SpecLine::Bad
                } else {
                    SpecLine::Entry {
                        depth,
                        marker,
                        id: hex_value(l.subrange(start, start + h)) as u16,
                        name: l.subrange(start + h + sp, l.len() as int),
                    }
                }
            }
        }
    }
}

/// The executable shape of one registry line.
pub enum LineKind {
    Blank,
    Note,
    Entry(EntryLine),
    Bad,
}

pub struct EntryLine {
    pub depth: usize,
    pub marker: bool,
    pub id: u16,
    pub name: Vec<char>,
}

impl View for LineKind {
    type V = SpecLine;

    open spec fn view(&self) -> SpecLine {
        match self {
            LineKind::Blank => SpecLine::Blank,
            LineKind::Note => SpecLine::Note,
            LineKind::Entry(e) => SpecLine::Entry {
                depth: e.depth as int,
                marker: e.marker,
                id: e.id,
                name: e.name@,
            },
            LineKind::Bad => SpecLine::Bad,
        }
    }
}

/// Classifies one line of registry text, per `classify_spec`.
fn classify_line(l: &Vec<char>) -> (k: LineKind)
    ensures
        k@ == classify_spec(l@),
{
    if l.len() == 0 {
        return LineKind::Blank;
    }
    if l[0] == '#' {
        return LineKind::Note;
    }
    let depth = scan_tab_run(l, 0);
    if depth > 2 {
        return LineKind::Bad;
    }
    let marker = depth == 0 && l.len() >= 2 && l[0] == 'C' && crate::text::exec_is_space(
        l[1],
    );
    let start = if marker {
        scan_space_run(l, 1)
    } else {
        depth
    };
    let h_end = scan_hex_run(l, start);
    if h_end == start {
        return LineKind::Bad;
    }
    proof {
        lemma_hex_run_len_digits(l@, start as int);
    }
    let id = match parse_hex_u16(l, start, h_end) {
        Some(v) => v,
        None => {
            proof {
                let field = l@.subrange(start as int, h_end as int);
                assert(forall|j: int|
                    0 <= j < field.len() ==> field[j] == #[trigger] l@[start + j]);
            }
            return LineKind::Bad;
        },
    };
    let sp_end = scan_space_run(l, h_end);
    if sp_end == h_end {
        return LineKind::Bad;
    }
    let name = copy_range(l, sp_end, l.len());
    proof {
        let field = l@.subrange(start as int, h_end as int);
        assert(forall|j: int|
            0 <= j < field.len() ==> field[j] == #[trigger] l@[start + j]);
        assert(hex_value(field) <= 0xFFFF);
    }
    LineKind::Entry(EntryLine { depth, marker, id, name })
}

/// Splits the text into lines, per `lines_of`.
fn split_lines(s: &Vec<char>) -> (r: Vec<Vec<char>>)
    ensures
        r@.map_values(|v: Vec<char>| v@) == lines_of(s@),
{
    let mut acc: Vec<Vec<char>> = Vec::new();
    let mut cur: Vec<char> = Vec::new();
    let mut i: usize = 0;
    assert(acc@.map_values(|v: Vec<char>| v@) =~= Seq::<Seq<char>>::empty());
    while i < s.len()
        invariant
            0 <= i <= s@.len(),
            lines_of(s@) == lines_rec(
                s@,
                i as int,
                cur@,
                acc@.map_values(|v: Vec<char>| v@),
            ),
        decreases s@.len() - i,
    {
        let c = s[i];
        if exec_is_line_break(c) {
            let ghost pre_acc = acc@.map_values(|v: Vec<char>| v@);
            acc.push(cur);
            cur = Vec::new();
            assert(acc@.map_values(|v: Vec<char>| v@) =~= pre_acc.push(
                acc@.last()@,
            ));
            if c == '\r' && i + 1 < s.len() && s[i + 1] == '\n' {
                i = i + 2;
            } else {
                i = i + 1;
            }
        } else {
            cur.push(c);
            i = i + 1;
        }
    }
    let ghost pre_acc = acc@.map_values(|v: Vec<char>| v@);
    acc.push(cur);
    assert(acc@.map_values(|v: Vec<char>| v@) =~= pre_acc.push(acc@.last()@));
    acc
}

/// A parse failure: the first offending line and its text.
#[derive(Debug)]
pub struct ParseError {
    pub line: usize,
    pub fragment: String,
}

pub struct ParseErrorV {
    pub line: int,
    pub fragment: Seq<char>,
}

impl View for ParseError {
    type V = ParseErrorV;

    open spec fn view(&self) -> ParseErrorV {
        ParseErrorV { line: self.line as int, fragment: self.fragment@ }
    }
}

/// What the parser holds open while walking the lines: nothing, a vendor
/// (with whether a product entry is open under it), or a class (with the
/// subclass currently being filled).
pub enum CurV {
    Top,
    Ven { v: VendorV, open_dev: bool },
    Cls { c: DeviceClassV, cur_sub: Option<SubclassV> },
}

pub struct PStateV {
    pub vendors: Map<u16, VendorV>,
    pub classes: Map<u16, DeviceClassV>,
    pub cur: CurV,
}

pub open spec fn init_state() -> PStateV {
    PStateV { vendors: Map::empty(), classes: Map::empty(), cur: CurV::Top }
}

/// Merges the subclass currently being filled back into its class.
pub open spec fn flush_sub(c: DeviceClassV, cur_sub: Option<SubclassV>) -> DeviceClassV {
    match cur_sub {
        Option::None => c,
        Option::Some(s) => DeviceClassV {
            id: c.id,
            name: c.name,
            subclasses: c.subclasses.insert(s.id, s),
        },
    }
}

/// Merges the open top-level entry, if any, into the finished trees.
pub open spec fn flush(st: PStateV) -> PStateV {
    match st.cur {
        CurV::Top => st,
        CurV::Ven { v, open_dev } => PStateV {
            vendors: st.vendors.insert(v.id, v),
            classes: st.classes,
            cur: CurV::Top,
        },
        CurV::Cls { c, cur_sub } => {
            let c1 = flush_sub(c, cur_sub);
            PStateV {
                vendors: st.vendors,
                classes: st.classes.insert(c1.id, c1),
                cur: CurV::Top,
            }
        },
    }
}

/// One parser transition. A depth-0 entry closes the open subtree and
/// opens a vendor or (with the `C` marker) a class; a depth-1 entry adds
/// a product under a vendor or opens a subclass under a class; a depth-2
/// entry adds an interface under an open subclass, or is checked and
/// dropped under a vendor's open product. A duplicate id at any level,
/// a malformed line, or an entry deeper than its context is an error.
pub open spec fn step(st: PStateV, k: SpecLine, lineno: int, frag: Seq<char>) -> Result<
    PStateV,
    ParseErrorV,
> {
    match k {
        SpecLine::Blank => Ok(st),
        SpecLine::Note => Ok(st),
        SpecLine::Bad => Err(ParseErrorV { line: lineno, fragment: frag }),
        SpecLine::Entry { depth, marker, id, name } => {
            if depth == 0 {
                let st1 = flush(st);
                if marker {
                    if st1.classes.contains_key(id) {
                        Err(ParseErrorV { line: lineno, fragment: frag })
                    } else {
                        Ok(
                            PStateV {
                                vendors: st1.vendors,
                                classes: st1.classes,
                                cur: CurV::Cls {
                                    c: DeviceClassV { id, name, subclasses: Map::empty() },
                                    cur_sub: Option::None,
                                },
                            },
                        )
                    }
                } else {
                    if st1.vendors.contains_key(id) {
                        Err(ParseErrorV { line: lineno, fragment: frag })
                    } else {
                        Ok(
                            PStateV {
                                vendors: st1.vendors,
                                classes: st1.classes,
                                cur: CurV::Ven {
                                    v: VendorV { id, name, devices: Map::empty() },
                                    open_dev: false,
                                },
                            },
                        )
                    }
                }
            } else if depth == 1 {
                match st.cur {
                    CurV::Top => Err(ParseErrorV { line: lineno, fragment: frag }),
                    CurV::Ven { v, open_dev } => if v.devices.contains_key(id) {
                        Err(ParseErrorV { line: lineno, fragment: frag })
                    } else {
                        Ok(
                            PStateV {
                                vendors: st.vendors,
                                classes: st.classes,
                                cur: CurV::Ven {
                                    v: VendorV {
                                        id: v.id,
                                        name: v.name,
                                        devices: v.devices.insert(id, name),
                                    },
                                    open_dev: true,
                                },
                            },
                        )
                    },
                    CurV::Cls { c, cur_sub } => {
                        let c1 = flush_sub(c, cur_sub);
                        if c1.subclasses.contains_key(id) {
                            Err(ParseErrorV { line: lineno, fragment: frag })
                        } else {
                            Ok(
                                PStateV {
                                    vendors: st.vendors,
                                    classes: st.classes,
                                    cur: CurV::Cls {
                                        c: c1,
                                        cur_sub: Option::Some(
                                            SubclassV { id, name, interfaces: Map::empty() },
                                        ),
                                    },
                                },
                            )
                        }
                    },
                }
            } else {
                match st.cur {
                    CurV::Top => Err(ParseErrorV { line: lineno, fragment: frag }),
                    CurV::Ven { v, open_dev } => if open_dev {
                        Ok(st)
                    } else {
                        Err(ParseErrorV { line: lineno, fragment: frag })
                    },
                    CurV::Cls { c, cur_sub } => match cur_sub {
                        Option::None => Err(ParseErrorV { line: lineno, fragment: frag }),
                        Option::Some(s) => if s.interfaces.contains_key(id) {
                            Err(ParseErrorV { line: lineno, fragment: frag })
                        } else {
                            Ok(
                                PStateV {
                                    vendors: st.vendors,
                                    classes: st.classes,
                                    cur: CurV::Cls {
                                        c,
                                        cur_sub: Option::Some(
                                            SubclassV {
                                                id: s.id,
                                                name: s.name,
                                                interfaces: s.interfaces.insert(id, name),
                                            },
                                        ),
                                    },
                                },
                            )
                        },
                    },
                }
            }
        },
    }
}

/// Runs the parser over `lines[i..]` from state `st`; at the end of input
/// the open subtree is closed cleanly.
pub open spec fn run_parse(lines: Seq<Seq<char>>, i: int, st: PStateV) -> Result<
    DbV,
    ParseErrorV,
>
    decreases lines.len() - i,
{
    if i < 0 || i >= lines.len() {
        let f = flush(st);
        Ok(DbV { vendors: f.vendors, classes: f.classes })
    } else {
        match step(st, classify_spec(lines[i]), i + 1, lines[i]) {
            Ok(st2) => run_parse(lines, i + 1, st2),
            Err(e) => Err(e),
        }
    }
}

/// The meaning of a whole registry text.
pub open spec fn spec_parse(s: Seq<char>) -> Result<DbV, ParseErrorV> {
    run_parse(lines_of(s), 0, init_state())
}

enum Current {
    Top,
    Ven(Vendor, bool),
    Cls(DeviceClass, Option<Subclass>),
}

impl View for Current {
    type V = CurV;

    closed spec fn view(&self) -> CurV {
        match self {
            Current::Top => CurV::Top,
            Current::Ven(v, open_dev) => CurV::Ven { v: v@, open_dev: *open_dev },
            Current::Cls(c, cur_sub) => CurV::Cls {
                c: c@,
                cur_sub: match cur_sub {
                    Option::None => Option::None,
                    Option::Some(s) => Option::Some(s@),
                },
            },
        }
    }
}

struct PState {
    vendors: HashMap<u16, Vendor>,
    classes: HashMap<u16, DeviceClass>,
    cur: Current,
}

impl View for PState {
    type V = PStateV;

    closed spec fn view(&self) -> PStateV {
        PStateV {
            vendors: self.vendors@.map_values(|v: Vendor| v@),
            classes: self.classes@.map_values(|c: DeviceClass| c@),
            cur: self.cur@,
        }
    }
}

impl PState {
    fn flushed(self) -> (r: PState)
        ensures
            r@ == flush(self@),
    {
        match self.cur {
            Current::Top => PState { vendors: self.vendors, classes: self.classes, cur: Current::Top },
            Current::Ven(v, _open_dev) => {
                let mut vendors = self.vendors;
                let key = v.id;
                vendors.insert(key, v);
                let r = PState { vendors, classes: self.classes, cur: Current::Top };
                proof {
                    assert(r@.vendors =~= flush(self@).vendors);
                }
                r
            },
            Current::Cls(c, cur_sub) => {
                let mut c = c;
                if let Option::Some(s) = cur_sub {
                    let skey = s.id;
                    c.subclasses.insert(skey, s);
                    proof {
                        assert(c@.subclasses =~= flush_sub(
                            self@.cur->Cls_c,
                            self@.cur->Cls_cur_sub,
                        ).subclasses);
                    }
                }
                let mut classes = self.classes;
                let key = c.id;
                classes.insert(key, c);
                let r = PState { vendors: self.vendors, classes, cur: Current::Top };
                proof {
                    assert(r@.classes =~= flush(self@).classes);
                }
                r
            },
        }
    }

    fn step_line(self, l: &Vec<char>, idx: usize) -> (r: Result<PState, ParseError>)
        requires
            idx < usize::MAX,
        ensures
            match r {
                Ok(st2) => step(self@, classify_spec(l@), idx as int + 1, l@) == Ok::<
                    PStateV,
                    ParseErrorV,
                >(st2@),
                Err(e) => step(self@, classify_spec(l@), idx as int + 1, l@) == Err::<
                    PStateV,
                    ParseErrorV,
                >(e@),
            },
    {
        let k = classify_line(l);
        match k {
            LineKind::Blank => Ok(self),
            LineKind::Note => Ok(self),
            LineKind::Bad => Err(ParseError { line: idx + 1, fragment: string_from_chars(l) }),
            LineKind::Entry(e) => {
                if e.depth == 0 {
                    let st1 = self.flushed();
                    if e.marker {
                        if st1.classes.contains_key(&e.id) {
                            Err(ParseError { line: idx + 1, fragment: string_from_chars(l) })
                        } else {
                            let c = DeviceClass {
                                id: e.id,
                                name: string_from_chars(&e.name),
                                subclasses: HashMap::new(),
                            };
                            let r = PState {
                                vendors: st1.vendors,
                                classes: st1.classes,
                                cur: Current::Cls(c, Option::None),
                            };
                            proof {
                                assert(r@.cur->Cls_c.subclasses =~= Map::<u16, SubclassV>::empty());
                            }
                            Ok(r)
                        }
                    } else {
                        if st1.vendors.contains_key(&e.id) {
                            Err(ParseError { line: idx + 1, fragment: string_from_chars(l) })
                        } else {
                            let v = Vendor {
                                id: e.id,
                                name: string_from_chars(&e.name),
                                devices: HashMap::new(),
                            };
                            let r = PState {
                                vendors: st1.vendors,
                                classes: st1.classes,
                                cur: Current::Ven(v, false),
                            };
                            proof {
                                assert(r@.cur->Ven_v.devices =~= Map::<u16, Seq<char>>::empty());
                            }
                            Ok(r)
                        }
                    }
                } else if e.depth == 1 {
                    match self.cur {
                        Current::Top => Err(
                            ParseError { line: idx + 1, fragment: string_from_chars(l) },
                        ),
                        Current::Ven(mut v, _open_dev) => {
                            if v.devices.contains_key(&e.id) {
                                Err(ParseError { line: idx + 1, fragment: string_from_chars(l) })
                            } else {
                                let ghost pre = v@.devices;
                                v.devices.insert(e.id, string_from_chars(&e.name));
                                let r = PState {
                                    vendors: self.vendors,
                                    classes: self.classes,
                                    cur: Current::Ven(v, true),
                                };
                                proof {
                                    assert(r@.cur->Ven_v.devices =~= pre.insert(e.id, e.name@));
                                }
                                Ok(r)
                            }
                        },
                        Current::Cls(mut c, cur_sub) => {
                            if let Option::Some(s) = cur_sub {
                                let skey = s.id;
                                c.subclasses.insert(skey, s);
                            }
                            proof {
                                assert(c@.subclasses =~= flush_sub(
                                    self@.cur->Cls_c,
                                    self@.cur->Cls_cur_sub,
                                ).subclasses);
                            }
                            if c.subclasses.contains_key(&e.id) {
                                Err(ParseError { line: idx + 1, fragment: string_from_chars(l) })
                            } else {
                                let s = Subclass {
                                    id: e.id,
                                    name: string_from_chars(&e.name),
                                    interfaces: HashMap::new(),
                                };
                                let r = PState {
                                    vendors: self.vendors,
                                    classes: self.classes,
                                    cur: Current::Cls(c, Option::Some(s)),
                                };
                                proof {
                                    assert(r@.cur->Cls_cur_sub->0.interfaces =~= Map::<
                                        u16,
                                        Seq<char>,
                                    >::empty());
                                }
                                Ok(r)
                            }
                        },
                    }
                } else {
                    match self.cur {
                        Current::Top => Err(
                            ParseError { line: idx + 1, fragment: string_from_chars(l) },
                        ),
                        Current::Ven(v, open_dev) => {
                            if open_dev {
                                Ok(
                                    PState {
                                        vendors: self.vendors,
                                        classes: self.classes,
                                        cur: Current::Ven(v, open_dev),
                                    },
                                )
                            } else {
                                Err(ParseError { line: idx + 1, fragment: string_from_chars(l) })
                            }
                        },
                        Current::Cls(c, cur_sub) => {
                            match cur_sub {
                                Option::None => Err(
                                    ParseError { line: idx + 1, fragment: string_from_chars(l) },
                                ),
                                Option::Some(mut s) => {
                                    if s.interfaces.contains_key(&e.id) {
                                        Err(
                                            ParseError {
                                                line: idx + 1,
                                                fragment: string_from_chars(l),
                                            },
                                        )
                                    } else {
                                        let ghost pre = s@.interfaces;
                                        s.interfaces.insert(e.id, string_from_chars(&e.name));
                                        let r = PState {
                                            vendors: self.vendors,
                                            classes: self.classes,
                                            cur: Current::Cls(c, Option::Some(s)),
                                        };
                                        proof {
                                            assert(r@.cur->Cls_cur_sub->0.interfaces =~= pre.insert(
                                                e.id,
                                                e.name@,
                                            ));
                                        }
                                        Ok(r)
                                    }
                                },
                            }
                        },
                    }
                }
            },
        }
    }
}

/// Parses registry text, strictly, per `spec_parse`.
pub fn parse_all(input: &str) -> (r: Result<super::Db, ParseError>)
    ensures
        match r {
            Ok(db) => spec_parse(input@) == Ok::<DbV, ParseErrorV>(db@),
            Err(e) => spec_parse(input@) == Err::<DbV, ParseErrorV>(e@),
        },
{
    let chars = chars_of_str(input);
    let lines = split_lines(&chars);
    let ghost glines = lines_of(input@);
    let mut st = PState {
        vendors: HashMap::new(),
        classes: HashMap::new(),
        cur: Current::Top,
    };
    proof {
        assert(st@.vendors =~= init_state().vendors);
        assert(st@.classes =~= init_state().classes);
    }
    let mut i: usize = 0;
    while i < lines.len()
        invariant
            0 <= i <= lines@.len(),
            lines@.map_values(|v: Vec<char>| v@) == glines,
            glines == lines_of(input@),
            run_parse(glines, i as int, st@) == spec_parse(input@),
        decreases lines@.len() - i,
    {
        let ghost pre = st@;
        assert(lines@[i as int]@ == glines[i as int]);
        st = match st.step_line(&lines[i], i) {
            Ok(s2) => s2,
            Err(err) => {
                proof {
                    assert(run_parse(glines, i as int, pre) == Err::<DbV, ParseErrorV>(err@));
                }
                return Err(err);
            },
        };
        i = i + 1;
    }
    let st1 = st.flushed();
    let db = super::Db { vendors: st1.vendors, classes: st1.classes };
    Ok(db)
}

} // verus!
