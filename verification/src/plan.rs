//! Work planning: which files of a traversal are queued, and where each
//! one's output goes.
//!
//! The walk itself reads the disk and happens outside this crate; it hands
//! the file paths it found, in traversal order, to [`plan_items`]. Filtering
//! and output placement happen here.

use vstd::prelude::*;

use crate::classify::{is_eligible_file, spec_eligible_file};
use crate::paths::{
    clean_rel_path,
    join_path_spec,
    mirror_output,
    path_diff,
    rest_under,
    strict_prefix_sep,
};

verus! {

/// One unit of work: a file to convert and where the result is written.
/// No output path means the file is rewritten in place. Each item is
/// consumed by exactly one worker and never shared.
#[derive(Debug)]
pub struct WorkItem {
    pub input: String,
    pub output: Option<String>,
}

impl View for WorkItem {
    type V = (Seq<char>, Option<Seq<char>>);

    open spec fn view(&self) -> Self::V {
        (self.input@, self.output.deep_view())
    }
}

impl DeepView for WorkItem {
    type V = (Seq<char>, Option<Seq<char>>);

    open spec fn deep_view(&self) -> Self::V {
        self.view()
    }
}

impl WorkItem {
    /// The path actually written: the explicit output when there is one,
    /// the input itself otherwise.
    pub fn target(&self) -> (r: &String)
        ensures
            r@ == match self@.1 {
                Some(o) => o,
                None => self@.0,
            },
    {
        match &self.output {
            Some(o) => o,
            None => &self.input,
        }
    }
}

/// The item planned for one file, or `None` when the file is not queued:
/// ineligible files, and files the relative-path routine cannot place under
/// the output root.
pub open spec fn planned_item(
    p: Seq<char>,
    root: Seq<char>,
    out_root: Option<Seq<char>>,
    allow_gif: bool,
) -> Option<(Seq<char>, Option<Seq<char>>)> {
    if !spec_eligible_file(p, allow_gif) {
        None
    } else {
        match out_root {
            None => Some((p, None::<Seq<char>>)),
            Some(o) => match path_diff(p, root) {
                Some(rel) => Some((p, Some(join_path_spec(o, rel)))),
                None => None,
            },
        }
    }
}

/// The whole plan for a traversal, in traversal order.
pub open spec fn spec_plan(
    files: Seq<Seq<char>>,
    root: Seq<char>,
    out_root: Option<Seq<char>>,
    allow_gif: bool,
) -> Seq<(Seq<char>, Option<Seq<char>>)>
    decreases files.len(),
{
    if files.len() == 0 {
        Seq::empty()
    } else {
        let rest = spec_plan(files.drop_first(), root, out_root, allow_gif);
        match planned_item(files[0], root, out_root, allow_gif) {
            Some(it) => seq![it] + rest,
            None => rest,
        }
    }
}

proof fn lemma_spec_plan_push(
    files: Seq<Seq<char>>,
    root: Seq<char>,
    out_root: Option<Seq<char>>,
    allow_gif: bool,
    x: Seq<char>,
)
    ensures
        spec_plan(files.push(x), root, out_root, allow_gif) == spec_plan(
            files,
            root,
            out_root,
            allow_gif,
        ) + match planned_item(x, root, out_root, allow_gif) {
            Some(it) => seq![it],
            None => Seq::empty(),
        },
    decreases files.len(),
{
    let with_x = files.push(x);
    if files.len() == 0 {
        assert(with_x.drop_first() =~= Seq::<Seq<char>>::empty());
        assert(with_x[0] == x);
        assert(spec_plan(with_x.drop_first(), root, out_root, allow_gif) =~= Seq::<
            (Seq<char>, Option<Seq<char>>),
        >::empty());
        match planned_item(x, root, out_root, allow_gif) {
            Some(it) => {
                assert(spec_plan(with_x, root, out_root, allow_gif) =~= Seq::empty() + seq![it]);
            },
            None => {
                assert(spec_plan(with_x, root, out_root, allow_gif) =~= Seq::empty()
                    + Seq::empty());
            },
        }
    } else {
        assert(with_x.drop_first() =~= files.drop_first().push(x));
        assert(with_x[0] == files[0]);
        lemma_spec_plan_push(files.drop_first(), root, out_root, allow_gif, x);
        let tail_plan = spec_plan(files.drop_first(), root, out_root, allow_gif);
        let x_part = match planned_item(x, root, out_root, allow_gif) {
            Some(it) => seq![it],
            None => Seq::empty(),
        };
        match planned_item(files[0], root, out_root, allow_gif) {
            Some(it0) => {
                assert(spec_plan(with_x, root, out_root, allow_gif) =~= (seq![it0] + tail_plan)
                    + x_part);
            },
            None => {
                assert(spec_plan(with_x, root, out_root, allow_gif) =~= tail_plan + x_part);
            },
        }
    }
}

/// Plans a traversal: keeps the eligible files, in traversal order, and
/// assigns each its output path — under the output root when one was given,
/// in place otherwise. For a file that sits literally below the root, the
/// planned output is the output root joined with the file's relative path.
pub fn plan_items(
    files: &Vec<String>,
    root: &String,
    out_root: &Option<String>,
    allow_gif: bool,
) -> (r: Vec<WorkItem>)
    ensures
        r.deep_view() == spec_plan(files.deep_view(), root@, out_root.deep_view(), allow_gif),
        out_root is Some ==> forall|k: int|
            0 <= k < files.len() && spec_eligible_file(files.deep_view()[k], allow_gif)
                && strict_prefix_sep(files.deep_view()[k], root@) && clean_rel_path(
                rest_under(files.deep_view()[k], root@),
            ) ==> #[trigger] path_diff(files.deep_view()[k], root@) == Some(
                rest_under(files.deep_view()[k], root@),
            ),
{
    let ghost fseq = files.deep_view();
    let ghost oview = out_root.deep_view();
    let mut r: Vec<WorkItem> = Vec::new();
    let mut idx: usize = 0;
    proof {
        assert(fseq.take(0) =~= Seq::<Seq<char>>::empty());
    }
    while idx < files.len()
        invariant
            0 <= idx <= files.len(),
            fseq == files.deep_view(),
            oview == out_root.deep_view(),
            fseq.len() == files.len(),
            r.deep_view() == spec_plan(fseq.take(idx as int), root@, oview, allow_gif),
            out_root is Some ==> forall|k: int|
                0 <= k < idx && spec_eligible_file(fseq[k], allow_gif) && strict_prefix_sep(
                    fseq[k],
                    root@,
                ) && clean_rel_path(rest_under(fseq[k], root@)) ==> #[trigger] path_diff(
                    fseq[k],
                    root@,
                ) == Some(rest_under(fseq[k], root@)),
        decreases files.len() - idx,
    {
        let file = &files[idx];
        proof {
            assert(fseq[idx as int] == file@);
        }
        let ghost old_plan = r.deep_view();
        if is_eligible_file(file.as_str(), allow_gif) {
            match out_root {
                None => {
                    r.push(WorkItem { input: file.clone(), output: None });
                },
                Some(o) => {
                    match mirror_output(file, root, o) {
                        Some(out) => {
                            r.push(WorkItem { input: file.clone(), output: Some(out) });
                        },
                        None => {},
                    }
                },
            }
        }
        proof {
            lemma_spec_plan_push(fseq.take(idx as int), root@, oview, allow_gif, fseq[idx as int]);
            assert(fseq.take(idx as int).push(fseq[idx as int]) =~= fseq.take(idx as int + 1));
            match planned_item(fseq[idx as int], root@, oview, allow_gif) {
                Some(it) => {
                    assert(r.deep_view() =~= old_plan + seq![it]);
                },
                None => {
                    assert(r.deep_view() =~= old_plan);
                },
            }
        }
        idx = idx + 1;
    }
    proof {
        assert(fseq.take(files.len() as int) =~= fseq);
    }
    r
}

/// The one item of a single-file run: the explicit output path when one was
/// given, otherwise the input itself, in place.
pub fn plan_single(input: &String, output: &Option<String>) -> (r: WorkItem)
    ensures
        r@.0 == input@,
        r@.1 == output.deep_view(),
{
    WorkItem {
        input: input.clone(),
        output: match output {
            Some(o) => Some(o.clone()),
            None => None,
        },
    }
}

/// Without an output root, every planned item is written in place: no item
/// carries an output path, so each one's write target is its own input.
pub proof fn lemma_plan_in_place(files: Seq<Seq<char>>, root: Seq<char>, allow_gif: bool)
    ensures
        forall|k: int|
            0 <= k < spec_plan(files, root, None, allow_gif).len() ==> (#[trigger] spec_plan(
                files,
                root,
                None,
                allow_gif,
            )[k]).1 is None,
    decreases files.len(),
{
    if files.len() > 0 {
        lemma_plan_in_place(files.drop_first(), root, allow_gif);
    }
}

} // verus!
