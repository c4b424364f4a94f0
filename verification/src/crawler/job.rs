//! Crawl jobs from the words the user typed.
use vstd::prelude::*;
use crate::cam::model::CrawlJob;
use crate::cam::util::{input_to_url, spec_input_to_url};

verus! {

/// One job per word, in order: the word as typed and its dictionary page.
pub fn build_jobs(words: Vec<String>) -> (r: Vec<CrawlJob>)
    ensures
        r@.len() == words@.len(),
        forall|i: int|
            #![trigger r@[i]]
            0 <= i < words@.len() ==> r@[i].original_input@ == words@[i]@ && r@[i].url@
                == spec_input_to_url(words@[i]@),
{
    let n = words.len();
    let mut jobs: Vec<CrawlJob> = Vec::new();
    for i in 0..n
        invariant
            n == words@.len(),
            jobs@.len() == i,
            forall|k: int|
                #![trigger jobs@[k]]
                0 <= k < i ==> jobs@[k].original_input@ == words@[k]@ && jobs@[k].url@
                    == spec_input_to_url(words@[k]@),
    {
        let word = &words[i];
        jobs.push(CrawlJob { original_input: word.clone(), url: input_to_url(word.as_str()) });
    }
    jobs
}

} // verus!
