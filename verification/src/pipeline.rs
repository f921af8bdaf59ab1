//! The plan of a run: which file is read, and where what is made of it goes.
//!
//! A run reads each file once, sets the patient's name of its record and writes
//! it. In `Mode::Separate` every output goes into one directory, under the name
//! of its source; in the other modes every output takes the place of its source.

use vstd::prelude::*;
use crate::config::BatchConfig;
use crate::config::Mode;
use crate::discover::discover;
use crate::discover::discovered;
use crate::discover::listing_view;
use crate::discover::DiscoveryError;
use crate::discover::Entry;
use crate::path::beside;
use crate::path::beside_path;
use crate::path::file_name;
use crate::path::join;
use crate::path::join_path;
use crate::path::lemma_split;
use crate::path::lemma_trimmed;
use crate::path::parent;
use crate::path::split_path;
use crate::path::trimmed;
use crate::path::SEPARATOR;
use crate::text::lemma_after_last;
use crate::text::lemma_after_last_unique;
use crate::text::text_of_owned;
use crate::text::texts;

verus! {

/// One file to work on.
#[derive(Clone, Debug, PartialEq, Eq)]
pub struct Job {
    /// The path of the file that is read.
    pub source: String,
    /// The name of that file.
    pub file_name: String,
    /// The path of the file that is written.
    pub output: String,
    /// The name that the patient's name is set to.
    pub new_name: String,
}

/// What the contracts say of a job.
pub struct JobView {
    pub source: Seq<char>,
    pub file_name: Seq<char>,
    pub output: Seq<char>,
    pub new_name: Seq<char>,
}

impl View for Job {
    type V = JobView;

    open spec fn view(&self) -> JobView {
        JobView {
            source: self.source@,
            file_name: self.file_name@,
            output: self.output@,
            new_name: self.new_name@,
        }
    }
}

/// What a run has to do.
#[derive(Clone, Debug, PartialEq, Eq)]
pub struct Batch {
    /// How many files were found.
    pub count: usize,
    /// The directory that receives the output and has to exist before the
    /// first job is done; `None` where each output takes the place of its
    /// source, and where no file was found.
    pub destination: Option<String>,
    /// The files to work on, in the order in which they were found.
    pub jobs: Vec<Job>,
}

/// The job that writes the file at `p` into the directory `dst_dir`, under
/// the name of the file.
pub open spec fn separate_job(p: Seq<char>, dst_dir: Seq<char>, new_name: Seq<char>) -> JobView {
    JobView { source: p, file_name: file_name(p), output: join(dst_dir, file_name(p)), new_name }
}

/// The job that writes the file at `p` into the directory that it is in, under
/// the name of the file.
pub open spec fn in_place_job(p: Seq<char>, new_name: Seq<char>) -> JobView {
    JobView {
        source: p,
        file_name: file_name(p),
        output: beside(parent(p), file_name(p)),
        new_name,
    }
}

/// The jobs of a run into one directory, one for each file found.
pub open spec fn separate_jobs(
    list_of_dicoms: Seq<Seq<char>>,
    dst_dir: Seq<char>,
    new_name: Seq<char>,
) -> Seq<JobView> {
    list_of_dicoms.map_values(|p: Seq<char>| separate_job(p, dst_dir, new_name))
}

/// The jobs of a run in place, one for each file found.
pub open spec fn in_place_jobs(list_of_dicoms: Seq<Seq<char>>, new_name: Seq<char>) -> Seq<JobView> {
    list_of_dicoms.map_values(|p: Seq<char>| in_place_job(p, new_name))
}

/// What the contracts say of a list of jobs.
pub open spec fn job_views(jobs: Seq<Job>) -> Seq<JobView> {
    jobs.map_values(|j: Job| j@)
}

/// What the contracts say of a batch.
pub struct BatchView {
    pub count: nat,
    pub destination: Option<Seq<char>>,
    pub jobs: Seq<JobView>,
}

impl View for Batch {
    type V = BatchView;

    open spec fn view(&self) -> BatchView {
        BatchView {
            count: self.count as nat,
            destination: text_of_owned(self.destination),
            jobs: job_views(self.jobs@),
        }
    }
}

/// The batch that a configuration makes of the files found: none where no file
/// was found; in `Mode::Separate` one job for each file into the resolved
/// destination; in the other modes one job for each file in place.
pub open spec fn planned(config: BatchConfig, list_of_dicoms: Seq<Seq<char>>) -> BatchView {
    if list_of_dicoms.len() == 0 {
        BatchView { count: 0, destination: None, jobs: Seq::empty() }
    } else if config.mode == Mode::Separate {
        BatchView {
            count: list_of_dicoms.len(),
            destination: Some(config.resolved()),
            jobs: separate_jobs(list_of_dicoms, config.resolved(), config.replacement_name@),
        }
    } else {
        BatchView {
            count: list_of_dicoms.len(),
            destination: None,
            jobs: in_place_jobs(list_of_dicoms, config.replacement_name@),
        }
    }
}

/// What a run makes of a listing: the error of the discovery, or the batch
/// planned for the files that it found.
pub open spec fn run_result(
    config: BatchConfig,
    listing: Result<Seq<Entry>, DiscoveryError>,
) -> Result<BatchView, DiscoveryError> {
    match discovered(listing, config.recursive()) {
        Ok(list_of_dicoms) => Ok(planned(config, list_of_dicoms)),
        Err(e) => Err(e),
    }
}

/// What an exec outcome of a run stands for.
pub open spec fn batch_view(r: Result<Batch, DiscoveryError>) -> Result<BatchView, DiscoveryError> {
    match r {
        Ok(batch) => Ok(batch@),
        Err(e) => Err(e),
    }
}

/// A job in place writes where it read: the output of a source that does not
/// end in a separator is the source itself.
pub proof fn lemma_in_place_overwrites(p: Seq<char>, new_name: Seq<char>)
    requires
        p.len() == 0 || p.last() != SEPARATOR,
    ensures
        in_place_job(p, new_name).output == in_place_job(p, new_name).source,
{
    lemma_split(p);
}

/// The output of a job in place is its source without the separators at its end.
pub proof fn lemma_in_place_output(p: Seq<char>, new_name: Seq<char>)
    ensures
        in_place_job(p, new_name).output == trimmed(p),
{
    lemma_split(p);
}

/// A run in place has no directory to make, and each of its jobs writes where
/// it read.
pub proof fn lemma_in_place_plan(config: BatchConfig, list_of_dicoms: Seq<Seq<char>>, i: int)
    requires
        config.mode != Mode::Separate,
        0 <= i < list_of_dicoms.len(),
    ensures
        planned(config, list_of_dicoms).destination is None,
        planned(config, list_of_dicoms).jobs[i].source == list_of_dicoms[i],
        planned(config, list_of_dicoms).jobs[i].output == trimmed(list_of_dicoms[i]),
{
    lemma_split(list_of_dicoms[i]);
}

/// A job into a directory keeps the file's name: the output is the directory,
/// a separator and the name, and the name of the output is that name where the
/// source has one.
pub proof fn lemma_separate_output(p: Seq<char>, dst_dir: Seq<char>, new_name: Seq<char>)
    ensures
        separate_job(p, dst_dir, new_name).output == dst_dir + seq![SEPARATOR] + file_name(p),
        file_name(p).len() > 0 ==> file_name(separate_job(p, dst_dir, new_name).output)
            == file_name(p),
        file_name(p).len() > 0 ==> parent(separate_job(p, dst_dir, new_name).output) == Some(
            dst_dir,
        ),
{
    lemma_split(p);
    let name = file_name(p);
    let out = join(dst_dir, name);
    if name.len() > 0 {
        lemma_trimmed(p);
        lemma_after_last(trimmed(p), SEPARATOR);
        assert(name.last() == trimmed(p).last());
        assert(out.last() == name.last());
        assert(trimmed(out) == out);
        let k: int = (dst_dir.len() + 1) as int;
        assert(out[k - 1] == SEPARATOR);
        assert forall|j: int| k <= j < out.len() implies out[j] != SEPARATOR by {
            assert(out[j] == name[j - k]);
            assert(name.contains(name[j - k]));
        }
        lemma_after_last_unique(out, SEPARATOR, k);
        assert(out.subrange(k, out.len() as int) == name);
        assert(out.subrange(0, k - 1) == dst_dir);
    }
}

/// A run in `Mode::Separate` that found files names the resolved destination,
/// and each of its jobs writes into that directory under the name of its source.
pub proof fn lemma_separate_plan(config: BatchConfig, list_of_dicoms: Seq<Seq<char>>, i: int)
    requires
        config.mode == Mode::Separate,
        0 <= i < list_of_dicoms.len(),
        file_name(list_of_dicoms[i]).len() > 0,
    ensures
        planned(config, list_of_dicoms).destination == Some(config.resolved()),
        planned(config, list_of_dicoms).jobs[i].source == list_of_dicoms[i],
        parent(planned(config, list_of_dicoms).jobs[i].output) == Some(config.resolved()),
        file_name(planned(config, list_of_dicoms).jobs[i].output) == file_name(list_of_dicoms[i]),
{
    lemma_separate_output(list_of_dicoms[i], config.resolved(), config.replacement_name@);
}

/// A run that found no file has nothing to do: it counts no file, has no job
/// and no directory to make.
pub proof fn lemma_nothing_found(config: BatchConfig, listing: Result<Seq<Entry>, DiscoveryError>)
    requires
        discovered(listing, config.recursive()) matches Ok(found) && found.len() == 0,
    ensures
        run_result(config, listing) matches Ok(batch) && batch.count == 0 && batch.jobs.len() == 0
            && batch.destination is None,
{
}

/// A batch holds one job for each file found, in the same order, and the job
/// reads that file.
pub proof fn lemma_one_job_each(config: BatchConfig, list_of_dicoms: Seq<Seq<char>>, i: int)
    requires
        0 <= i < list_of_dicoms.len(),
    ensures
        planned(config, list_of_dicoms).count == list_of_dicoms.len(),
        planned(config, list_of_dicoms).jobs.len() == list_of_dicoms.len(),
        planned(config, list_of_dicoms).jobs[i].source == list_of_dicoms[i],
        planned(config, list_of_dicoms).jobs[i].new_name == config.replacement_name@,
{
}

/// The jobs of a run that sets the patient's name to `new_name` and writes
/// every output into `dst_dir`, under the name of its source: one for each
/// file of the list, in its order.
pub fn anonymize_list_of_dicoms(list_of_dicoms: &Vec<String>, dst_dir: &str, new_name: &str) -> (jobs:
    Vec<Job>)
    ensures
        job_views(jobs@) == separate_jobs(texts(list_of_dicoms@), dst_dir@, new_name@),
{
    let mut jobs: Vec<Job> = Vec::new();
    let n: usize = list_of_dicoms.len();
    let mut i: usize = 0;
    while i < n
        invariant
            n == list_of_dicoms.len(),
            i <= n,
            jobs.len() == i,
            forall|j: int|
                0 <= j < i ==> (#[trigger] jobs@[j])@ == separate_job(
                    list_of_dicoms@[j]@,
                    dst_dir@,
                    new_name@,
                ),
        decreases n - i,
    {
        let dicom_path = &list_of_dicoms[i];
        let parts = split_path(dicom_path.as_str());
        let output = join_path(dst_dir, parts.1.as_str());
        jobs.push(
            Job {
                source: dicom_path.clone(),
                file_name: parts.1,
                output,
                new_name: new_name.to_owned(),
            },
        );
        i += 1;
    }
    proof {
        assert(job_views(jobs@) =~= separate_jobs(texts(list_of_dicoms@), dst_dir@, new_name@));
    }
    jobs
}

/// The jobs of a run that sets the patient's name to `new_name` and writes
/// every output in the place of its source: one for each file of the list, in
/// its order.
pub fn anonymize_list_of_dicoms_in_place(list_of_dicoms: &Vec<String>, new_name: &str) -> (jobs: Vec<
    Job,
>)
    ensures
        job_views(jobs@) == in_place_jobs(texts(list_of_dicoms@), new_name@),
{
    let mut jobs: Vec<Job> = Vec::new();
    let n: usize = list_of_dicoms.len();
    let mut i: usize = 0;
    while i < n
        invariant
            n == list_of_dicoms.len(),
            i <= n,
            jobs.len() == i,
            forall|j: int|
                0 <= j < i ==> (#[trigger] jobs@[j])@ == in_place_job(list_of_dicoms@[j]@, new_name@),
        decreases n - i,
    {
        let dicom_path = &list_of_dicoms[i];
        let parts = split_path(dicom_path.as_str());
        let dir = match &parts.0 {
            Some(d) => Some(d.as_str()),
            None => None,
        };
        let output = beside_path(dir, parts.1.as_str());
        jobs.push(
            Job {
                source: dicom_path.clone(),
                file_name: parts.1,
                output,
                new_name: new_name.to_owned(),
            },
        );
        i += 1;
    }
    proof {
        assert(job_views(jobs@) =~= in_place_jobs(texts(list_of_dicoms@), new_name@));
    }
    jobs
}

/// Plans a run from the files that were found. Where none was found there is
/// nothing to do. In `Mode::Separate` the destination is resolved once and
/// every output goes into it; in the other modes every output takes the place
/// of its source.
pub fn plan(config: &BatchConfig, list_of_dicoms: &Vec<String>) -> (batch: Batch)
    ensures
        batch@ == planned(*config, texts(list_of_dicoms@)),
{
    let count: usize = list_of_dicoms.len();
    if count == 0 {
        let batch = Batch { count: 0, destination: None, jobs: Vec::new() };
        proof {
            assert(job_views(batch.jobs@) =~= Seq::<JobView>::empty());
        }
        return batch;
    }
    match config.mode {
        Mode::Separate => {
            let dst_dir = config.resolve();
            let jobs = anonymize_list_of_dicoms(
                list_of_dicoms,
                dst_dir.as_str(),
                config.replacement_name.as_str(),
            );
            Batch { count, destination: Some(dst_dir), jobs }
        },
        _ => {
            let jobs = anonymize_list_of_dicoms_in_place(
                list_of_dicoms,
                config.replacement_name.as_str(),
            );
            Batch { count, destination: None, jobs }
        },
    }
}

/// One run, from the listing of the source directory: finds the files to work
/// on by the rule that the mode asks for, and plans what to do with them. A
/// failed discovery fails the run.
pub fn run(config: &BatchConfig, listing: &Result<Vec<Entry>, DiscoveryError>) -> (r: Result<
    Batch,
    DiscoveryError,
>)
    ensures
        batch_view(r) == run_result(*config, listing_view(*listing)),
{
    match discover(listing, config.is_recursive()) {
        Ok(list_of_dicoms) => Ok(plan(config, &list_of_dicoms)),
        Err(e) => Err(e),
    }
}

} // verus!
