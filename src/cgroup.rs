//! Control-group membership lines (`<id>:<controllers>:<path>`) and the choice
//! of the hierarchy that governs the CPU controller.

use vstd::prelude::*;
use crate::bytes::{has_field, split, split_fields, views};

verus! {

/// The two control-group interfaces.
#[derive(Clone, Copy, Debug, PartialEq, Eq, Structural)]
pub enum CgroupVersion {
    /// Per-controller hierarchies; a membership line lists its controllers.
    V1,
    /// The single unified hierarchy; a membership line lists no controllers.
    V2,
}

/// One relevant membership line: the version of its hierarchy and the path of
/// the process's group within it.
#[derive(Debug)]
pub struct Subsys {
    pub version: CgroupVersion,
    pub base: Vec<u8>,
}

/// What a `Subsys` holds, as plain values.
pub struct SubsysView {
    pub version: CgroupVersion,
    pub base: Seq<u8>,
}

impl View for Subsys {
    type V = SubsysView;

    open spec fn view(&self) -> SubsysView {
        SubsysView { version: self.version, base: self.base@ }
    }
}

/// The view of an optional record.
pub open spec fn opt_view(o: Option<Subsys>) -> Option<SubsysView> {
    match o {
        Some(s) => Some(s@),
        None => None,
    }
}

/// The controller name that makes a V1 line relevant.
pub open spec fn cpu_token() -> Seq<u8> {
    seq![99u8, 112u8, 117u8]
}

/// What a membership line says: `None` with fewer than three `:`-separated
/// fields, V2 with an empty controller list, V1 where the comma-separated
/// controller list holds `cpu`, and `None` for any other controller list. The
/// path is the third field.
pub open spec fn parse_line_spec(line: Seq<u8>) -> Option<SubsysView> {
    let f = split_fields(line, 58u8);
    if f.len() < 3 {
        None
    } else if f[1].len() == 0 {
        Some(SubsysView { version: CgroupVersion::V2, base: f[2] })
    } else if split_fields(f[1], 44u8).contains(cpu_token()) {
        Some(SubsysView { version: CgroupVersion::V1, base: f[2] })
    } else {
        None
    }
}

/// The winner between the best record so far and the next one: the first V1
/// record stays; a V1 record replaces a V2 one; otherwise the first stays.
pub open spec fn select_spec(previous: Option<SubsysView>, next: SubsysView) -> Option<SubsysView> {
    match previous {
        None => Some(next),
        Some(p) => if p.version == CgroupVersion::V2 && next.version == CgroupVersion::V1 {
            Some(next)
        } else {
            Some(p)
        },
    }
}

/// The record chosen from a membership file's lines: the lines that parse,
/// folded left to right with `select_spec`.
pub open spec fn load_cpu_spec(lines: Seq<Seq<u8>>) -> Option<SubsysView>
    decreases lines.len(),
{
    if lines.len() == 0 {
        None
    } else {
        let acc = load_cpu_spec(lines.drop_last());
        match parse_line_spec(lines.last()) {
            None => acc,
            Some(r) => select_spec(acc, r),
        }
    }
}

/// Whether an optional record is a V1 one.
pub open spec fn is_v1(o: Option<SubsysView>) -> bool {
    o matches Some(r) && r.version == CgroupVersion::V1
}

proof fn lemma_no_v1_gives_no_v1(lines: Seq<Seq<u8>>)
    requires
        forall|j: int| 0 <= j < lines.len() ==> !is_v1(#[trigger] parse_line_spec(lines[j])),
    ensures
        !is_v1(load_cpu_spec(lines)),
    decreases lines.len(),
{
    if lines.len() > 0 {
        let init = lines.drop_last();
        assert forall|j: int| 0 <= j < init.len() implies !is_v1(
            #[trigger] parse_line_spec(init[j]),
        ) by {
            assert(init[j] == lines[j]);
        }
        lemma_no_v1_gives_no_v1(init);
        assert(!is_v1(parse_line_spec(lines[lines.len() - 1])));
    }
}

proof fn lemma_none_parse_gives_none(lines: Seq<Seq<u8>>)
    requires
        forall|j: int| 0 <= j < lines.len() ==> (#[trigger] parse_line_spec(lines[j])) is None,
    ensures
        load_cpu_spec(lines) is None,
    decreases lines.len(),
{
    if lines.len() > 0 {
        let init = lines.drop_last();
        assert forall|j: int| 0 <= j < init.len() implies (#[trigger] parse_line_spec(
            init[j],
        )) is None by {
            assert(init[j] == lines[j]);
        }
        lemma_none_parse_gives_none(init);
        assert(parse_line_spec(lines[lines.len() - 1]) is None);
    }
}

/// A membership file's first line that parses as a V1 record is the one
/// chosen, whatever V2 records come before or after it.
pub proof fn lemma_first_v1_wins(lines: Seq<Seq<u8>>, i: int)
    requires
        0 <= i < lines.len(),
        is_v1(parse_line_spec(lines[i])),
        forall|j: int| 0 <= j < i ==> !is_v1(#[trigger] parse_line_spec(lines[j])),
    ensures
        load_cpu_spec(lines) == parse_line_spec(lines[i]),
    decreases lines.len(),
{
    let init = lines.drop_last();
    if i == lines.len() - 1 {
        assert forall|j: int| 0 <= j < init.len() implies !is_v1(
            #[trigger] parse_line_spec(init[j]),
        ) by {
            assert(init[j] == lines[j]);
        }
        lemma_no_v1_gives_no_v1(init);
    } else {
        assert(init[i] == lines[i]);
        assert forall|j: int| 0 <= j < i implies !is_v1(#[trigger] parse_line_spec(init[j])) by {
            assert(init[j] == lines[j]);
        }
        lemma_first_v1_wins(init, i);
    }
}

/// Where no line of a membership file parses as a V1 record, the first line
/// that parses at all (a V2 record) is the one chosen.
pub proof fn lemma_first_v2_wins_without_v1(lines: Seq<Seq<u8>>, i: int)
    requires
        0 <= i < lines.len(),
        parse_line_spec(lines[i]) is Some,
        forall|j: int| 0 <= j < i ==> (#[trigger] parse_line_spec(lines[j])) is None,
        forall|j: int| 0 <= j < lines.len() ==> !is_v1(#[trigger] parse_line_spec(lines[j])),
    ensures
        load_cpu_spec(lines) == parse_line_spec(lines[i]),
    decreases lines.len(),
{
    let init = lines.drop_last();
    if i == lines.len() - 1 {
        assert forall|j: int| 0 <= j < init.len() implies (#[trigger] parse_line_spec(
            init[j],
        )) is None by {
            assert(init[j] == lines[j]);
        }
        lemma_none_parse_gives_none(init);
    } else {
        assert(init[i] == lines[i]);
        assert forall|j: int| 0 <= j < i implies (#[trigger] parse_line_spec(init[j])) is None by {
            assert(init[j] == lines[j]);
        }
        assert forall|j: int| 0 <= j < init.len() implies !is_v1(
            #[trigger] parse_line_spec(init[j]),
        ) by {
            assert(init[j] == lines[j]);
        }
        lemma_first_v2_wins_without_v1(init, i);
        assert(!is_v1(parse_line_spec(lines[lines.len() - 1])));
    }
}

impl Subsys {
    /// Parses one membership line.
    pub fn parse_line(line: &[u8]) -> (r: Option<Subsys>)
        ensures
            opt_view(r) == parse_line_spec(line@),
    {
        let fields = split(line, 58u8);
        assert(views(fields@).len() == fields@.len());
        if fields.len() < 3 {
            return None;
        }
        assert(views(fields@)[1] == fields@[1]@);
        assert(views(fields@)[2] == fields@[2]@);
        let version = if fields[1].len() == 0 {
            CgroupVersion::V2
        } else {
            let cpu: [u8; 3] = [99u8, 112u8, 117u8];
            assert(cpu@ =~= cpu_token());
            if !has_field(fields[1].as_slice(), 44u8, cpu.as_slice()) {
                return None;
            }
            CgroupVersion::V1
        };
        let base = fields[2].clone();
        Some(Subsys { version, base })
    }

    /// Folds the next record into the best one so far.
    pub fn select(previous: Option<Subsys>, next: Subsys) -> (r: Option<Subsys>)
        ensures
            opt_view(r) == select_spec(opt_view(previous), next@),
    {
        match previous {
            None => Some(next),
            Some(p) => {
                if p.version == CgroupVersion::V2 && next.version == CgroupVersion::V1 {
                    Some(next)
                } else {
                    Some(p)
                }
            },
        }
    }

    /// Chooses the record that governs the CPU controller among the lines of a
    /// membership file; lines that do not parse are passed over.
    pub fn load_cpu(lines: &Vec<Vec<u8>>) -> (r: Option<Subsys>)
        ensures
            opt_view(r) == load_cpu_spec(views(lines@)),
    {
        let mut best: Option<Subsys> = None;
        let mut i: usize = 0;
        while i < lines.len()
            invariant
                i <= lines@.len(),
                opt_view(best) == load_cpu_spec(views(lines@).subrange(0, i as int)),
            decreases lines@.len() - i,
        {
            assert(views(lines@).subrange(0, i as int + 1).drop_last() =~= views(
                lines@,
            ).subrange(0, i as int));
            assert(views(lines@).subrange(0, i as int + 1).last() == lines@[i as int]@);
            match Subsys::parse_line(lines[i].as_slice()) {
                None => {},
                Some(rec) => {
                    best = Subsys::select(best, rec);
                },
            }
            i = i + 1;
        }
        assert(views(lines@).subrange(0, lines@.len() as int) =~= views(lines@));
        best
    }
}

} // verus!
