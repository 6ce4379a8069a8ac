use vstd::prelude::*;
use std::collections::BTreeMap;

verus! {

/// The subcommands of the command line.
pub enum Command {
    /// Show the version, the locations in use and, when `verbose`, the configuration.
    Info { verbose: bool },
}

/// The command line: a subcommand, or none for an interactive session.
pub struct Cli {
    pub command: Option<Command>,
}

/// What the server reports about itself.
pub struct InfoResponse {
    pub version: String,
    pub config_file: String,
    pub sessions_dir: String,
    pub logs_dir: String,
    pub config_values: Option<BTreeMap<String, String>>,
}

/// `n` spaces.
pub open spec fn spaces(n: nat) -> Seq<char> {
    Seq::new(n, |i: int| ' ')
}

/// `label` padded with spaces to `width` characters.
pub open spec fn padded(label: Seq<char>, width: nat) -> Seq<char> {
    if label.len() >= width {
        label
    } else {
        label + spaces((width - label.len()) as nat)
    }
}

/// One line of the report: indented, the label padded to `width`, then the value.
pub fn aligned_line(label: &str, value: &str, width: usize) -> (r: String)
    ensures
        r@ == "  "@ + padded(label@, width as nat) + " "@ + value@,
{
    let mut r = String::from_str("  ");
    r.append(label);
    let n = label.unicode_len();
    let ghost base = "  "@ + label@;
    if n < width {
        let mut i: usize = n;
        while i < width
            invariant
                n <= i <= width,
                n == label@.len(),
                r@ == base + spaces((i - n) as nat),
            decreases width - i,
        {
            r.append(" ");
            proof {
                reveal_strlit(" ");
            }
            assert(base + spaces((i + 1 - n) as nat) =~= base + spaces((i - n) as nat) + " "@);
            i = i + 1;
        }
        assert(base + spaces((width - n) as nat) =~= "  "@ + padded(label@, width as nat));
    } else {
        assert(base =~= "  "@ + padded(label@, width as nat));
    }
    r.append(" ");
    r.append(value);
    r
}

/// The width that labels of the report are padded to.
pub const LABEL_WIDTH: usize = 15;

/// What the configuration part of a verbose report shows.
pub enum ConfigReport {
    /// The server sent no configuration.
    Missing,
    /// The server sent an empty configuration.
    Empty,
    /// The server sent configuration values, which are listed.
    Values,
}

impl InfoResponse {
    /// The lines that locate the server's files, in the order shown.
    pub fn location_lines(&self) -> (r: Vec<String>)
        ensures
            r@.len() == 3,
            r@[0]@ == "  "@ + padded("Config file:"@, 15) + " "@ + self.config_file@,
            r@[1]@ == "  "@ + padded("Sessions dir:"@, 15) + " "@ + self.sessions_dir@,
            r@[2]@ == "  "@ + padded("Logs dir:"@, 15) + " "@ + self.logs_dir@,
    {
        let mut r: Vec<String> = Vec::new();
        r.push(aligned_line("Config file:", self.config_file.as_str(), LABEL_WIDTH));
        r.push(aligned_line("Sessions dir:", self.sessions_dir.as_str(), LABEL_WIDTH));
        r.push(aligned_line("Logs dir:", self.logs_dir.as_str(), LABEL_WIDTH));
        r
    }

    /// The line that gives the version.
    pub fn version_line(&self) -> (r: String)
        ensures
            r@ == "  "@ + padded("Version:"@, 15) + " "@ + self.version@,
    {
        aligned_line("Version:", self.version.as_str(), LABEL_WIDTH)
    }

    /// Which configuration part a verbose report shows.
    pub fn config_report(&self) -> (r: ConfigReport)
        ensures
            match self.config_values {
                None => r is Missing,
                Some(m) => if m@.is_empty() {
                    r is Empty
                } else {
                    r is Values
                },
            },
    {
        match &self.config_values {
            None => ConfigReport::Missing,
            Some(m) => if m.is_empty() {
                ConfigReport::Empty
            } else {
                ConfigReport::Values
            },
        }
    }
}

} // verus!
