//! The list of sources a run works through.

use vstd::prelude::*;

verus! {

/// The sources of one run, in the order they are processed.
#[derive(Debug)]
pub struct Config {
    files: Vec<String>,
}

impl View for Config {
    type V = Seq<Seq<char>>;

    closed spec fn view(&self) -> Seq<Seq<char>> {
        self.files.deep_view()
    }
}

/// The sources that are read for a given list of path arguments: the
/// arguments themselves, or standard input, written `-`, when there are none.
pub open spec fn effective_files(given: Seq<Seq<char>>) -> Seq<Seq<char>> {
    if given.len() == 0 {
        seq!["-"@]
    } else {
        given
    }
}

/// Builds the configuration from the path arguments of the command line.
pub fn get_args(files: Vec<String>) -> (r: Result<Config, String>)
    ensures
        r matches Ok(config) && config@ == effective_files(files.deep_view()),
{
    if files.len() == 0 {
        let mut only: Vec<String> = Vec::new();
        only.push("-".to_string());
        assert(only.deep_view() =~= seq!["-"@]);
        Ok(Config { files: only })
    } else {
        Ok(Config { files })
    }
}

impl Config {
    /// Gives up the sources, in order.
    pub fn into_files(self) -> (r: Vec<String>)
        ensures
            r.deep_view() == self@,
    {
        self.files
    }

    /// The sources, in order.
    pub fn files(&self) -> (r: &Vec<String>)
        ensures
            r.deep_view() == self@,
    {
        &self.files
    }
}

} // verus!
