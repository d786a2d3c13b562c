//! Where a dataset lives: the default dataset, a named dataset in the
//! store's directory, or an explicit path.
use vstd::prelude::*;
use std::path::PathBuf;
use crate::paths::join_name;
use crate::text::{chars_of, eq_str};

verus! {

/// How a dataset is named on the command line.
#[derive(Debug)]
pub enum DatasetLocator {
    Default,
    Name(String),
    Path(PathBuf),
}

/// Where a dataset lives, and its name when it is in the store.
#[derive(Debug)]
pub struct DatasetResolution {
    pub path: PathBuf,
    pub name: Option<String>,
}

/// A dataset name: nonempty, not `.` or `..`, and without `/` or `\`.
pub open spec fn spec_valid_dataset_name(name: Seq<char>) -> bool {
    name.len() > 0 && name != "."@ && name != ".."@ && !name.contains('/') && !name.contains('\\')
}

pub fn valid_dataset_name(name: &str) -> (r: bool)
    ensures
        r == spec_valid_dataset_name(name@),
{
    let c = chars_of(name);
    if c.len() == 0 || eq_str(c.as_slice(), ".") || eq_str(c.as_slice(), "..") {
        return false;
    }
    let mut i: usize = 0;
    while i < c.len()
        invariant
            0 <= i <= c.len(),
            c@ == name@,
            forall|k: int| 0 <= k < i ==> c@[k] != '/' && c@[k] != '\\',
        decreases c.len() - i,
    {
        if c[i] == '/' || c[i] == '\\' {
            assert(c@[i as int] == c[i as int]);
            return false;
        }
        i = i + 1;
    }
    true
}

/// A name that is not a valid dataset name.
#[derive(Debug)]
pub struct InvalidDatasetName {
    pub name: String,
}

/// The directory that holds named datasets.
#[derive(Debug)]
pub struct DatasetStore {
    datasets_dir: PathBuf,
}

impl DatasetStore {
    pub closed spec fn spec_datasets_dir(&self) -> PathBuf {
        self.datasets_dir
    }

    pub fn from_datasets_dir(datasets_dir: PathBuf) -> (r: Self)
        ensures
            r.spec_datasets_dir() == datasets_dir,
    {
        DatasetStore { datasets_dir }
    }

    pub fn datasets_dir(&self) -> (r: &PathBuf)
        ensures
            *r == self.spec_datasets_dir(),
    {
        &self.datasets_dir
    }

    fn resolve_name(&self, name: &str) -> (r: DatasetResolution)
        ensures
            r.name matches Some(n) && n@ == name@,
    {
        DatasetResolution { path: join_name(&self.datasets_dir, name), name: Some(name.to_owned()) }
    }

    /// Resolves a locator: the default dataset is the one named `default`;
    /// a name must be valid and lives in the store's directory; a path is
    /// taken as it is, without a name.
    pub fn resolve(&self, locator: &DatasetLocator) -> (r: Result<DatasetResolution, InvalidDatasetName>)
        ensures
            match locator {
                DatasetLocator::Default => r matches Ok(res) && res.name matches Some(n) && n@ == "default"@,
                DatasetLocator::Name(name) => if spec_valid_dataset_name(name@) {
                    r matches Ok(res) && res.name matches Some(n) && n@ == name@
                } else {
                    r matches Err(e) && e.name@ == name@
                },
                DatasetLocator::Path(path) => r matches Ok(res) && res.path == *path && res.name is None,
            },
    {
        match locator {
            DatasetLocator::Default => Ok(self.resolve_name("default")),
            DatasetLocator::Name(name) => {
                if !valid_dataset_name(name.as_str()) {
                    return Err(InvalidDatasetName { name: name.clone() });
                }
                Ok(self.resolve_name(name.as_str()))
            },
            DatasetLocator::Path(path) => Ok(DatasetResolution { path: path.clone(), name: None }),
        }
    }
}

} // verus!
