//! What a run is asked to do, and where its output goes.

use vstd::prelude::*;
use crate::path::beside;
use crate::path::beside_path;
use crate::path::file_name;
use crate::path::lemma_split;
use crate::path::parent;
use crate::path::split_path;
use crate::path::trimmed;
use crate::path::SEPARATOR;
use crate::text::text_of;
use crate::text::text_of_owned;

verus! {

/// What is put behind the name of the source directory to name the directory
/// that receives the output.
pub const ANONYMOUS_SUFFIX: &'static str = "_anonymous";

/// Where the files are looked for and where the output goes.
#[derive(Clone, Copy, Debug, PartialEq, Eq, Structural)]
pub enum Mode {
    /// The files of the source directory itself; output in a directory of its own.
    Separate,
    /// The files of the source directory itself; each output takes the place of
    /// its source.
    InPlace,
    /// The files of the source directory and of all directories below it; each
    /// output takes the place of its source.
    AllRecursive,
}

/// Why a run cannot be set up.
#[derive(Clone, Copy, Debug, PartialEq, Eq, Structural)]
pub enum ConfigError {
    /// No source directory was given.
    MissingSource,
    /// The source directory has no name: its path is empty or holds separators only.
    InvalidSource,
}

/// The source directory, its parent and its name.
#[derive(Clone, Debug, PartialEq, Eq)]
pub struct SourceDir {
    pub src_dir: String,
    pub parent_address: Option<String>,
    pub name_of_the_folder: String,
}

/// What one run is asked to do.
#[derive(Clone, Debug, PartialEq, Eq)]
pub struct BatchConfig {
    pub source_root: String,
    pub destination_root: Option<String>,
    pub replacement_name: String,
    pub mode: Mode,
}

/// The directory that receives the output: the one asked for, or else the
/// sibling of the source directory whose name is that of the source directory
/// with [`ANONYMOUS_SUFFIX`] behind it.
pub open spec fn destination(
    dst: Option<Seq<char>>,
    parent_address: Option<Seq<char>>,
    name_of_the_folder: Seq<char>,
) -> Seq<char> {
    match dst {
        Some(v) => v,
        None => beside(parent_address, name_of_the_folder + ANONYMOUS_SUFFIX@),
    }
}

/// The mode that the two switches of a run select: "all" goes before "in place".
pub open spec fn mode_of_switches(in_place: bool, all_dicoms: bool) -> Mode {
    if all_dicoms {
        Mode::AllRecursive
    } else if in_place {
        Mode::InPlace
    } else {
        Mode::Separate
    }
}

impl BatchConfig {
    /// A configuration is valid when its source directory has a name.
    pub open spec fn wf(&self) -> bool {
        file_name(self.source_root@).len() > 0
    }

    /// The directory that receives the output of a run in `Mode::Separate`.
    pub open spec fn resolved(&self) -> Seq<char> {
        destination(
            text_of_owned(self.destination_root),
            parent(self.source_root@),
            file_name(self.source_root@),
        )
    }

    /// Whether the files are looked for below the source directory too.
    pub open spec fn recursive(&self) -> bool {
        self.mode == Mode::AllRecursive
    }

    /// The configuration of a run from what was asked for: the source
    /// directory, the destination if one is wanted, the new name if there is
    /// one, and the two switches.
    pub fn new(
        src: Option<&str>,
        dst: Option<&str>,
        new_name: Option<&str>,
        in_place: bool,
        all_dicoms: bool,
    ) -> (r: Result<BatchConfig, ConfigError>)
        ensures
            src is None ==> r == Err::<BatchConfig, ConfigError>(ConfigError::MissingSource),
            src is Some && file_name(src->0@).len() == 0 ==> r == Err::<BatchConfig, ConfigError>(
                ConfigError::InvalidSource,
            ),
            src is Some && file_name(src->0@).len() > 0 ==> r is Ok,
            r matches Ok(c) ==> {
                &&& c.wf()
                &&& c.source_root@ == src->0@
                &&& text_of_owned(c.destination_root) == text_of(dst)
                &&& c.replacement_name@ == new_name_text(new_name)
                &&& c.mode == mode_of_switches(in_place, all_dicoms)
            },
    {
        let source = match get_src_dir(src) {
            Ok(s) => s,
            Err(e) => {
                return Err(e);
            },
        };
        let destination_root = match dst {
            Some(v) => Some(v.to_owned()),
            None => None,
        };
        Ok(
            BatchConfig {
                source_root: source.src_dir,
                destination_root,
                replacement_name: get_new_name(new_name),
                mode: mode_of(in_place, all_dicoms),
            },
        )
    }

    /// Whether the files are looked for below the source directory too: only
    /// `Mode::AllRecursive` asks for that.
    pub fn is_recursive(&self) -> (b: bool)
        ensures
            b == self.recursive(),
    {
        match self.mode {
            Mode::AllRecursive => true,
            _ => false,
        }
    }

    /// The directory that receives the output of a run in `Mode::Separate`:
    /// the destination asked for, as it was given, or else the sibling of the
    /// source directory named after it.
    pub fn resolve(&self) -> (dst_dir: String)
        ensures
            dst_dir@ == self.resolved(),
    {
        let parts = split_path(self.source_root.as_str());
        let parent_address = match &parts.0 {
            Some(d) => Some(d.as_str()),
            None => None,
        };
        let dst = match &self.destination_root {
            Some(d) => Some(d.as_str()),
            None => None,
        };
        get_dst_dir(dst, parent_address, parts.1.as_str())
    }
}

/// The new name as text: the one given, or the empty one.
pub open spec fn new_name_text(new_name: Option<&str>) -> Seq<char> {
    match new_name {
        Some(v) => v@,
        None => Seq::<char>::empty(),
    }
}

/// With no destination asked for, the output goes to the source path, taken
/// without the separators at its end, with [`ANONYMOUS_SUFFIX`] behind it.
pub proof fn lemma_destination_beside_source(src: Seq<char>)
    ensures
        destination(None, parent(src), file_name(src)) == trimmed(src) + ANONYMOUS_SUFFIX@,
{
    lemma_split(src);
    let name = file_name(src);
    match parent(src) {
        Some(d) => {
            assert(d + seq![SEPARATOR] + (name + ANONYMOUS_SUFFIX@) == (d + seq![SEPARATOR] + name)
                + ANONYMOUS_SUFFIX@);
        },
        None => {},
    }
}

/// A destination that was asked for is taken as it stands.
pub proof fn lemma_destination_verbatim(
    dst: Seq<char>,
    parent_address: Option<Seq<char>>,
    name_of_the_folder: Seq<char>,
)
    ensures
        destination(Some(dst), parent_address, name_of_the_folder) == dst,
{
}

/// The mode that the two switches of a run select.
pub fn mode_of(in_place: bool, all_dicoms: bool) -> (mode: Mode)
    ensures
        mode == mode_of_switches(in_place, all_dicoms),
{
    if all_dicoms {
        Mode::AllRecursive
    } else if in_place {
        Mode::InPlace
    } else {
        Mode::Separate
    }
}

/// The source directory with its parent and its name. A run needs a source
/// directory, and one that has a name.
pub fn get_src_dir(src: Option<&str>) -> (r: Result<SourceDir, ConfigError>)
    ensures
        src is None ==> r == Err::<SourceDir, ConfigError>(ConfigError::MissingSource),
        src is Some && file_name(src->0@).len() == 0 ==> r == Err::<SourceDir, ConfigError>(
            ConfigError::InvalidSource,
        ),
        src is Some && file_name(src->0@).len() > 0 ==> r is Ok,
        r matches Ok(s) ==> {
            &&& s.src_dir@ == src->0@
            &&& text_of_owned(s.parent_address) == parent(src->0@)
            &&& s.name_of_the_folder@ == file_name(src->0@)
        },
{
    let src_dir = match src {
        Some(v) => v,
        None => {
            return Err(ConfigError::MissingSource);
        },
    };
    let parts = split_path(src_dir);
    if parts.1.as_str().is_empty() {
        return Err(ConfigError::InvalidSource);
    }
    Ok(
        SourceDir {
            src_dir: src_dir.to_owned(),
            parent_address: parts.0,
            name_of_the_folder: parts.1,
        },
    )
}

/// The directory that receives the output: `dst` where one was asked for, or
/// else the directory beside the source directory whose name is
/// `name_of_the_folder` with [`ANONYMOUS_SUFFIX`] behind it.
pub fn get_dst_dir(dst: Option<&str>, parent_address: Option<&str>, name_of_the_folder: &str) -> (dst_dir:
    String)
    ensures
        dst_dir@ == destination(text_of(dst), text_of(parent_address), name_of_the_folder@),
{
    match dst {
        Some(v) => v.to_owned(),
        None => {
            let mut name = name_of_the_folder.to_owned();
            name.append(ANONYMOUS_SUFFIX);
            beside_path(parent_address, name.as_str())
        },
    }
}

/// The new name: the one given, or the empty one, which clears the field.
pub fn get_new_name(new_name: Option<&str>) -> (name: String)
    ensures
        name@ == new_name_text(new_name),
{
    match new_name {
        Some(v) => v.to_owned(),
        None => String::new(),
    }
}

} // verus!
