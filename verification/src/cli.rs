//! The command line's arguments and what they select.

use crate::error::{ConflictError, TrimError};
use crate::text::{has_suffix, to_chars};
use crate::trim::{output_for, output_path};
use vstd::prelude::*;

verus! {

/// The arguments of one invocation.
#[derive(Debug, Clone)]
pub struct ToolArgs {
    /// The input files, in any order: one `.tar` archive and one `.json` manifest.
    pub file_path: Vec<String>,
    /// Where to write the trimmed archive; beside the input where absent.
    pub output: Option<String>,
}

/// What one invocation works on.
#[derive(Debug)]
pub struct TrimPlan {
    /// The archive to trim.
    pub image_path: String,
    /// The manifest of the reference image.
    pub manifest_path: String,
    /// Where the trimmed archive goes.
    pub output_path: String,
}

/// Whether `name` names an image archive.
pub open spec fn is_archive_name(name: Seq<char>) -> bool {
    ".tar"@.is_suffix_of(name)
}

/// Whether `name` names a manifest.
pub open spec fn is_manifest_name(name: Seq<char>) -> bool {
    !is_archive_name(name) && ".json"@.is_suffix_of(name)
}

/// The archives among `files`, in order.
pub open spec fn archives(files: Seq<Seq<char>>) -> Seq<Seq<char>> {
    files.filter(|name: Seq<char>| is_archive_name(name))
}

/// The manifests among `files`, in order.
pub open spec fn manifests(files: Seq<Seq<char>>) -> Seq<Seq<char>> {
    files.filter(|name: Seq<char>| is_manifest_name(name))
}

/// Whether the first `n` files hold two archives or two manifests.
pub open spec fn clash_within(files: Seq<Seq<char>>, n: int) -> bool {
    archives(files.take(n)).len() >= 2 || manifests(files.take(n)).len() >= 2
}

/// Whether the first `n` files hold a clash that the first `n - 1` do not.
pub open spec fn brings_clash(files: Seq<Seq<char>>, n: int) -> bool {
    0 < n <= files.len() && clash_within(files, n) && !clash_within(files, n - 1)
}

/// The length of the shortest prefix of `files` that holds a clash.
pub open spec fn first_clash(files: Seq<Seq<char>>) -> int {
    choose|n: int| brings_clash(files, n)
}

/// What a list of input files selects: the archive and the manifest, or the
/// reason why it selects none.  Where both kinds are given twice, the kind
/// whose second file comes first decides.
pub open spec fn identified(files: Seq<Seq<char>>) -> Result<(Seq<char>, Seq<char>), ConflictError> {
    let tars = archives(files);
    let jsons = manifests(files);
    if tars.len() >= 2 || jsons.len() >= 2 {
        if is_archive_name(files[first_clash(files) - 1]) {
            Err(ConflictError::MultipleArchives)
        } else {
            Err(ConflictError::MultipleManifests)
        }
    } else if tars.len() == 1 && jsons.len() == 1 {
        Ok((tars[0], jsons[0]))
    } else if tars.len() == 0 && jsons.len() == 0 {
        Err(ConflictError::NoInputs)
    } else if tars.len() == 0 {
        Err(ConflictError::NoArchive)
    } else {
        Err(ConflictError::NoManifest)
    }
}

/// The file names as character sequences.
pub open spec fn names(files: Seq<String>) -> Seq<Seq<char>> {
    files.map_values(|name: String| name@)
}

/// A longer prefix holds at least as many archives and manifests.
proof fn lemma_counts_grow(files: Seq<Seq<char>>, a: int, b: int)
    requires
        0 <= a <= b <= files.len(),
    ensures
        archives(files.take(a)).len() <= archives(files.take(b)).len(),
        manifests(files.take(a)).len() <= manifests(files.take(b)).len(),
{
    assert(files.take(b).take(a) =~= files.take(a));
    files.take(b).lemma_filter_take_len(|name: Seq<char>| is_archive_name(name), a);
    files.take(b).lemma_filter_take_len(|name: Seq<char>| is_manifest_name(name), a);
}

/// A prefix that brings the first clash is the one that `first_clash` names.
proof fn lemma_first_clash(files: Seq<Seq<char>>, n: int)
    requires
        brings_clash(files, n),
    ensures
        first_clash(files) == n,
        archives(files).len() >= 2 || manifests(files).len() >= 2,
{
    let m = first_clash(files);
    if m < n {
        lemma_counts_grow(files, m, n - 1);
    } else if m > n {
        lemma_counts_grow(files, n, m - 1);
    }
    lemma_counts_grow(files, n, files.len() as int);
    assert(files.take(files.len() as int) =~= files);
}

/// Picks the archive and the manifest out of `files`.
///
/// A file is an archive where its name ends in `.tar`, a manifest where it
/// ends in `.json`; other files are passed over.
pub fn identify_files(files: &[String]) -> (r: Result<(String, String), TrimError>)
    ensures
        match r {
            Ok((image, manifest)) => identified(names(files@)) == Ok::<
                (Seq<char>, Seq<char>),
                ConflictError,
            >((image@, manifest@)),
            Err(e) => identified(names(files@)) is Err && e == TrimError::Conflict(
                identified(names(files@))->Err_0,
            ),
        },
{
    let tar_suffix = to_chars(".tar");
    let json_suffix = to_chars(".json");
    let mut image: Option<String> = None;
    let mut manifest: Option<String> = None;
    let ghost all = names(files@);
    let mut i: usize = 0;
    while i < files.len()
        invariant
            i <= files.len(),
            all == names(files@),
            tar_suffix@ == ".tar"@,
            json_suffix@ == ".json"@,
            archives(all.take(i as int)) == match image {
                Some(path) => seq![path@],
                None => Seq::<Seq<char>>::empty(),
            },
            manifests(all.take(i as int)) == match manifest {
                Some(path) => seq![path@],
                None => Seq::<Seq<char>>::empty(),
            },
        decreases files.len() - i,
    {
        let file = &files[i];
        let chars = to_chars(file.as_str());
        proof {
            assert(all.take(i as int + 1) =~= all.take(i as int).push(file@));
            all.take(i as int).lemma_filter_push(file@, |name: Seq<char>| is_archive_name(name));
            all.take(i as int).lemma_filter_push(file@, |name: Seq<char>| is_manifest_name(name));
        }
        if has_suffix(&chars, &tar_suffix) {
            if image.is_some() {
                proof {
                    lemma_first_clash(all, i as int + 1);
                }
                return Err(TrimError::Conflict(ConflictError::MultipleArchives));
            }
            image = Some(file.clone());
        } else if has_suffix(&chars, &json_suffix) {
            if manifest.is_some() {
                proof {
                    lemma_first_clash(all, i as int + 1);
                }
                return Err(TrimError::Conflict(ConflictError::MultipleManifests));
            }
            manifest = Some(file.clone());
        }
        i += 1;
    }
    assert(all.take(i as int) =~= all);
    match (image, manifest) {
        (Some(image), Some(manifest)) => Ok((image, manifest)),
        (None, None) => Err(TrimError::Conflict(ConflictError::NoInputs)),
        (None, _) => Err(TrimError::Conflict(ConflictError::NoArchive)),
        (_, None) => Err(TrimError::Conflict(ConflictError::NoManifest)),
    }
}

impl ToolArgs {
    /// The place that was asked for, as characters.
    pub open spec fn requested(self) -> Option<Seq<char>> {
        match self.output {
            Some(path) => Some(path@),
            None => None,
        }
    }

    /// Settles what the invocation works on: the two input files, as
    /// [`identify_files`] picks them, and the place of the output.
    pub fn plan(&self) -> (r: Result<TrimPlan, TrimError>)
        ensures
            match r {
                Ok(plan) => {
                    &&& identified(names(self.file_path@)) == Ok::<
                        (Seq<char>, Seq<char>),
                        ConflictError,
                    >((plan.image_path@, plan.manifest_path@))
                    &&& plan.output_path@ == output_for(plan.image_path@, self.requested())
                },
                Err(e) => identified(names(self.file_path@)) is Err && e == TrimError::Conflict(
                    identified(names(self.file_path@))->Err_0,
                ),
            },
    {
        let (image_path, manifest_path) = match identify_files(self.file_path.as_slice()) {
            Ok(paths) => paths,
            Err(error) => {
                return Err(error);
            },
        };
        let output_path = match &self.output {
            Some(asked) => output_path(image_path.as_str(), Some(asked.as_str())),
            None => output_path(image_path.as_str(), None),
        };
        Ok(TrimPlan { image_path, manifest_path, output_path })
    }
}

} // verus!
