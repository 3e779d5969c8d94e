//! The course-archive data model.
//!
//! The scraping collaborator produces these records; the core treats them as
//! read-only input. A `Course` is a node of a two-level tree: its own files,
//! and child courses whose files it also owns for synchronization purposes.

use vstd::prelude::*;

verus! {

/// A reference to one downloadable remote resource: an identifier plus the
/// display name the save routines use. Opaque to the core beyond being
/// handed to the external save routines.
#[derive(PartialEq, Eq, Debug)]
pub struct TrainexFile {
    /// Portal-side identifier of the resource.
    pub id: u64,
    /// Display name of the resource.
    pub name: String,
}

impl Clone for TrainexFile {
    /// A cloned file reference equals the original.
    fn clone(&self) -> (res: TrainexFile)
        ensures
            res == *self,
    {
        TrainexFile { id: self.id, name: self.name.clone() }
    }
}

/// Duplicates a file batch; the copy holds exactly the same references.
pub fn clone_files(files: &Vec<TrainexFile>) -> (res: Vec<TrainexFile>)
    ensures
        res@ == files@,
{
    let res = files.clone();
    proof {
        assert(res@ =~= files@);
    }
    res
}

/// A node in the portal's material hierarchy: metadata, an ordered sequence
/// of files, and an ordered sequence of child courses.
#[derive(PartialEq, Eq, Debug)]
pub struct Course {
    /// Portal-side identifier of the course.
    pub id: u64,
    /// Display name of the course.
    pub name: String,
    /// The course's own files, in portal order.
    pub files: Vec<TrainexFile>,
    /// Child courses, in portal order.
    pub children: Vec<Course>,
}

/// The file batches one course contributes to a sync run, in download order:
/// each child's files first, children in listed order, then the course's own
/// files.
pub open spec fn course_batches(c: Course) -> Seq<Seq<TrainexFile>> {
    c.children@.map_values(|ch: Course| ch.files@).push(c.files@)
}

/// The file batches of a whole archive, courses in listed order.
pub open spec fn archive_batches(archive: Seq<Course>) -> Seq<Seq<TrainexFile>>
    decreases archive.len(),
{
    if archive.len() == 0 {
        Seq::empty()
    } else {
        course_batches(archive[0]) + archive_batches(archive.drop_first())
    }
}

} // verus!
