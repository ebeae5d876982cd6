use vstd::prelude::*;

verus! {

/// User settings: the folder in which bare file names are looked up.
#[derive(Debug)]
pub struct Config {
    pub default_folder: Option<String>,
}

/// Where a file named on the command line is taken from.
#[derive(Debug, Clone, Copy, PartialEq, Eq, Structural)]
pub enum PathChoice {
    /// The name joined to the default folder.
    InDefaultFolder,
    /// The name as given.
    AsGiven,
    /// Neither names an existing file.
    NotFound,
}

impl Default for Config {
    fn default() -> (r: Config)
        ensures
            r.default_folder is None,
    {
        Config { default_folder: None }
    }
}

impl Config {
    pub fn new(default_folder: Option<String>) -> (r: Config)
        ensures
            r.default_folder == default_folder,
    {
        Config { default_folder }
    }

    /// Sets the default folder.
    pub fn set_default_folder(&mut self, folder_path: String)
        ensures
            final(self).default_folder == Some(folder_path),
    {
        self.default_folder = Some(folder_path);
    }

    /// The default folder, if one is set.
    pub fn get_default_folder(&self) -> (r: Option<String>)
        ensures
            r == self.default_folder,
    {
        match &self.default_folder {
            Some(f) => Some(f.clone()),
            None => None,
        }
    }

    /// The folder a command works on: the one given, else the default one.
    pub fn folder_or_default(&self, given: Option<String>) -> (r: Option<String>)
        ensures
            r == (if given is Some {
                given
            } else {
                self.default_folder
            }),
    {
        match given {
            Some(g) => Some(g),
            None => self.get_default_folder(),
        }
    }

    /// Picks where a file name is resolved: a file of that name in the default folder comes
    /// first, then the name as a path of its own.
    pub fn choose_path(&self, in_default_exists: bool, as_given_exists: bool) -> (r: PathChoice)
        ensures
            r == (if self.default_folder is Some && in_default_exists {
                PathChoice::InDefaultFolder
            } else if as_given_exists {
                PathChoice::AsGiven
            } else {
                PathChoice::NotFound
            }),
    {
        if self.default_folder.is_some() && in_default_exists {
            PathChoice::InDefaultFolder
        } else if as_given_exists {
            PathChoice::AsGiven
        } else {
            PathChoice::NotFound
        }
    }
}

} // verus!
