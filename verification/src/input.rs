//! Crawl jobs from the command line or from lines typed at a prompt.
use vstd::prelude::*;
use crate::cam::model::CrawlJob;
use crate::cam::util::{input_to_url, spec_input_to_url};
use crate::crawler::job::build_jobs;
use crate::text::{chars_of, string_of, trim, trim_ws};

verus! {

/// How many typed lines come before the first blank one, from index `i` on.
pub open spec fn lines_before_blank(lines: Seq<String>, i: int) -> int
    decreases lines.len() - i,
{
    if i < 0 || i >= lines.len() || trim_ws(lines[i]@).len() == 0 {
        0
    } else {
        1 + lines_before_blank(lines, i + 1)
    }
}

/// The jobs to crawl: one per command-line argument when there are any
/// (each argument as given); otherwise one per typed line, trimmed, up to the
/// first blank line.
pub fn collect_jobs(args: Vec<String>, lines: Vec<String>) -> (r: Vec<CrawlJob>)
    ensures
        args@.len() > 0 ==> r@.len() == args@.len() && forall|i: int|
            #![trigger r@[i]]
            0 <= i < args@.len() ==> r@[i].original_input@ == args@[i]@ && r@[i].url@
                == spec_input_to_url(args@[i]@),
        args@.len() == 0 ==> r@.len() == lines_before_blank(lines@, 0) && forall|i: int|
            #![trigger r@[i]]
            0 <= i < r@.len() ==> r@[i].original_input@ == trim_ws(lines@[i]@) && r@[i].url@
                == spec_input_to_url(trim_ws(lines@[i]@)),
{
    if args.len() > 0 {
        return build_jobs(args);
    }
    let n = lines.len();
    let mut jobs: Vec<CrawlJob> = Vec::new();
    let mut i: usize = 0;
    while i < n
        invariant
            i <= n,
            n == lines@.len(),
            jobs@.len() == i,
            lines_before_blank(lines@, 0) == i + lines_before_blank(lines@, i as int),
            forall|k: int|
                #![trigger jobs@[k]]
                0 <= k < i ==> jobs@[k].original_input@ == trim_ws(lines@[k]@) && jobs@[k].url@
                    == spec_input_to_url(trim_ws(lines@[k]@)),
        ensures
            jobs@.len() == lines_before_blank(lines@, 0),
            forall|k: int|
                #![trigger jobs@[k]]
                0 <= k < jobs@.len() ==> jobs@[k].original_input@ == trim_ws(lines@[k]@)
                    && jobs@[k].url@ == spec_input_to_url(trim_ws(lines@[k]@)),
        decreases n - i,
    {
        let t = string_of(&trim(&chars_of(lines[i].as_str())));
        if t.as_str().is_empty() {
            break;
        }
        let url = input_to_url(t.as_str());
        jobs.push(CrawlJob { original_input: t, url });
        i = i + 1;
    }
    jobs
}

} // verus!
