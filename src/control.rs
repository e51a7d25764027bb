use vstd::prelude::*;

use crate::error::{Code, Error};

verus! {

/// One configured control: where its input comes from, where its output
/// goes, how often it runs, and the curve that maps one to the other.
pub struct Config {
    pub name: String,
    /// Period of the control, in milliseconds.
    pub interval: u64,
    pub src_path: String,
    /// `file` or `program`, in any letter case.
    pub src_type: String,
    pub src_args: Option<Vec<String>>,
    pub dest_path: String,
    pub dest_min: i64,
    pub dest_max: i64,
    pub default_dest_percent: Option<i32>,
    pub curve: Option<String>,
    /// Curve breakpoints, each an input value and an output percentage.
    pub points: Vec<Vec<i64>>,
}

/// Where a control reads its input.
#[derive(Clone, Copy, Debug, PartialEq, Eq, Structural)]
pub enum SourceKind {
    File,
    Program,
}

/// What one control step writes.
#[derive(Clone, Copy, Debug, PartialEq, Eq, Structural)]
pub enum CurveStep {
    /// This output value, as it stands.
    Raw(i64),
    /// The output interpolated between two breakpoints for this input.
    Interpolate { in_min: i64, in_max: i64, in_current: i64, out_min: i64, out_max: i64 },
}

/// The lower-case form of a string, as Unicode defines it.
pub uninterp spec fn lower_of(s: Seq<char>) -> Seq<char>;

/// Relies on `str::to_lowercase`: its result depends on the characters alone.
#[verifier::external_body]
fn lowercase(s: &str) -> (r: String)
    ensures
        r@ == lower_of(s@),
{
    s.to_lowercase()
}

/// The source kind named by an already lower-cased source type.
pub fn source_kind_of(lowered: &str) -> (r: Result<SourceKind, Error>)
    ensures
        lowered@ == "file"@ ==> r == Ok::<SourceKind, Error>(SourceKind::File),
        lowered@ == "program"@ ==> r == Ok::<SourceKind, Error>(SourceKind::Program),
        lowered@ != "file"@ && lowered@ != "program"@ ==> r is Err && r->Err_0.spec_code()
            == Code::SourceTypeIsRequired,
{
    proof {
        reveal_strlit("file");
        reveal_strlit("program");
        assert("program"@.len() != "file"@.len());
    }
    let l = lowered.to_string();
    if l == "file".to_string() {
        Ok(SourceKind::File)
    } else if l == "program".to_string() {
        Ok(SourceKind::Program)
    } else {
        Err(Error::new(Code::SourceTypeIsRequired, "Source type is required for control".to_string()))
    }
}

/// Every breakpoint holds at least an input and an output value.
pub open spec fn points_well_formed(points: Seq<Seq<i64>>) -> bool {
    forall|i: int| 0 <= i < points.len() ==> (#[trigger] points[i]).len() >= 2
}

/// Index of the first breakpoint whose input is at least `input`, or the
/// number of breakpoints when there is none.
pub open spec fn first_at_least(points: Seq<Seq<i64>>, input: i64) -> int
    decreases points.len(),
{
    if points.len() == 0 {
        0
    } else if first_at_least(points.drop_last(), input) < points.len() - 1 {
        first_at_least(points.drop_last(), input)
    } else if points.last()[0] >= input {
        points.len() - 1
    } else {
        points.len() as int
    }
}

/// What the curve asks for at `input`: below or at the last breakpoint the
/// value interpolated between the first breakpoint at or above the input and
/// the next one, or that breakpoint's output if it is the last; above every
/// breakpoint, the first breakpoint's output.
pub open spec fn curve_step(points: Seq<Seq<i64>>, input: i64) -> CurveStep {
    let l = first_at_least(points, input);
    if l >= points.len() {
        CurveStep::Raw(points[0][1])
    } else if l == points.len() - 1 {
        CurveStep::Raw(points[l][1])
    } else {
        CurveStep::Interpolate {
            in_min: points[l][0],
            in_max: points[l + 1][0],
            in_current: input,
            out_min: points[l][1],
            out_max: points[l + 1][1],
        }
    }
}

proof fn lemma_first_at_least(points: Seq<Seq<i64>>, input: i64)
    requires
        points_well_formed(points),
    ensures
        0 <= first_at_least(points, input) <= points.len(),
        forall|i: int| 0 <= i < first_at_least(points, input) ==> (#[trigger] points[i])[0] < input,
        first_at_least(points, input) < points.len() ==> points[first_at_least(points, input)][0] >= input,
    decreases points.len(),
{
    if points.len() > 0 {
        let p = points.drop_last();
        assert(points_well_formed(p)) by {
            assert forall|i: int| 0 <= i < p.len() implies (#[trigger] p[i]).len() >= 2 by {
                assert(p[i] == points[i]);
            }
        }
        lemma_first_at_least(p, input);
        let f = first_at_least(p, input);
        let r = first_at_least(points, input);
        assert forall|i: int| 0 <= i < r implies (#[trigger] points[i])[0] < input by {
            if i < f {
                assert(p[i] == points[i]);
            } else {
                assert(f == p.len());
                assert(points[i] == points.last());
            }
        }
        if r < points.len() && r < f {
            assert(p[r] == points[r]);
        }
    }
}

impl Config {
    /// The curve's breakpoints, as sequences.
    pub open spec fn points_view(&self) -> Seq<Seq<i64>> {
        self.points@.map_values(|p: Vec<i64>| p@)
    }

    /// Which kind of source the control reads, from its source type in any
    /// letter case.
    pub fn source_kind(&self) -> (r: Result<SourceKind, Error>)
        ensures
            lower_of(self.src_type@) == "file"@ ==> r == Ok::<SourceKind, Error>(SourceKind::File),
            lower_of(self.src_type@) == "program"@ ==> r == Ok::<SourceKind, Error>(SourceKind::Program),
            lower_of(self.src_type@) != "file"@ && lower_of(self.src_type@) != "program"@ ==> r is Err
                && r->Err_0.spec_code() == Code::SourceTypeIsRequired,
    {
        let l = lowercase(self.src_type.as_str());
        source_kind_of(l.as_str())
    }

    /// How long one reading of the source may take: half the interval.
    pub fn source_timeout(&self) -> (r: u64)
        ensures
            r == self.interval / 2,
    {
        self.interval / 2
    }

    /// What the control writes for the reading `input`.  Fails when a
    /// breakpoint lacks its two values or there is no breakpoint.
    pub fn select_point(&self, input: i64) -> (r: Result<CurveStep, Error>)
        ensures
            points_well_formed(self.points_view()) && self.points_view().len() > 0 ==> r == Ok::<
                CurveStep,
                Error,
            >(curve_step(self.points_view(), input)),
            !(points_well_formed(self.points_view()) && self.points_view().len() > 0) ==> r is Err
                && r->Err_0.spec_code() == Code::InvalidConfigCurvePoints,
            points_well_formed(self.points_view()) ==> {
                let l = first_at_least(self.points_view(), input);
                &&& 0 <= l <= self.points_view().len()
                &&& forall|i: int| 0 <= i < l ==> (#[trigger] self.points_view()[i])[0] < input
                &&& l < self.points_view().len() ==> self.points_view()[l][0] >= input
            },
    {
        let ghost pts = self.points_view();
        let n = self.points.len();
        let mut i: usize = 0;
        while i < n
            invariant
                n == self.points@.len(),
                pts == self.points_view(),
                pts.len() == n,
                i <= n,
                forall|k: int| 0 <= k < i ==> (#[trigger] pts[k]).len() >= 2,
            decreases n - i,
        {
            if self.points[i].len() < 2 {
                proof {
                    assert(pts[i as int] == self.points@[i as int]@);
                }
                return Err(self.invalid_points());
            }
            proof {
                assert(pts[i as int] == self.points@[i as int]@);
            }
            i = i + 1;
        }
        if n == 0 {
            return Err(self.invalid_points());
        }
        proof {
            lemma_first_at_least(pts, input);
            assert forall|k: int| 0 <= k < n implies (#[trigger] self.points@[k])@.len() >= 2 by {
                assert(pts[k] == self.points@[k]@);
            }
        }
        let mut l: usize = 0;
        while l < n && self.points[l][0] < input
            invariant
                n == self.points@.len(),
                pts == self.points_view(),
                pts.len() == n,
                points_well_formed(pts),
                forall|k: int| 0 <= k < n ==> (#[trigger] self.points@[k])@.len() >= 2,
                l <= n,
                l <= first_at_least(pts, input),
                first_at_least(pts, input) <= n,
                first_at_least(pts, input) < n ==> pts[first_at_least(pts, input)][0] >= input,
            decreases n - l,
        {
            proof {
                assert(pts[l as int] == self.points@[l as int]@);
            }
            l = l + 1;
        }
        proof {
            assert(pts[0] == self.points@[0]@);
            if l < n {
                assert(pts[l as int] == self.points@[l as int]@);
            }
            if l + 1 < n {
                assert(pts[l + 1] == self.points@[l + 1]@);
            }
            assert(l == first_at_least(pts, input));
        }
        if l >= n {
            Ok(CurveStep::Raw(self.points[0][1]))
        } else if l == n - 1 {
            Ok(CurveStep::Raw(self.points[l][1]))
        } else {
            Ok(
                CurveStep::Interpolate {
                    in_min: self.points[l][0],
                    in_max: self.points[l + 1][0],
                    in_current: input,
                    out_min: self.points[l][1],
                    out_max: self.points[l + 1][1],
                },
            )
        }
    }

    fn invalid_points(&self) -> (r: Error)
        ensures
            r.spec_code() == Code::InvalidConfigCurvePoints,
    {
        Error::new(Code::InvalidConfigCurvePoints, "Invalid curve graph points for control".to_string())
    }
}

} // verus!
