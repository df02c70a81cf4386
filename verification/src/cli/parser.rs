//! A verified parser for the command line: from the raw arguments, program
//! name first, to a typed command.

use vstd::prelude::*;

use crate::cli::commands::{Command, CommandView};
use crate::text::str_eq;

verus! {

/// A parsed command line.
pub struct Cli {
    pub command: Command,
}

/// Why a command line was refused.
#[derive(Debug, PartialEq, Eq, Structural, Clone, Copy)]
pub enum CliError {
    Usage,
}

/// The grammar of the command line. `args` is the whole argument list, the
/// program's own name first. Each subcommand takes its parameters in order;
/// `list-objects` takes an optional prefix filter after `-p` or `--prefix`.
pub open spec fn spec_parse_args(args: Seq<Seq<char>>) -> Option<CommandView> {
    if args.len() < 2 {
        Option::None
    } else {
        let c = args[1];
        if c == "list-buckets"@ {
            if args.len() == 2 {
                Option::Some(CommandView::ListBuckets)
            } else {
                Option::None
            }
        } else if c == "create-bucket"@ {
            if args.len() == 3 {
                Option::Some(CommandView::CreateBucket { name: args[2] })
            } else {
                Option::None
            }
        } else if c == "delete-bucket"@ {
            if args.len() == 3 {
                Option::Some(CommandView::DeleteBucket { name: args[2] })
            } else {
                Option::None
            }
        } else if c == "list-objects"@ {
            if args.len() == 3 {
                Option::Some(
                    CommandView::ListObjects { bucket: args[2], prefix: Option::None },
                )
            } else if args.len() == 5 && (args[3] == "-p"@ || args[3] == "--prefix"@) {
                Option::Some(
                    CommandView::ListObjects { bucket: args[2], prefix: Option::Some(args[4]) },
                )
            } else {
                Option::None
            }
        } else if c == "upload-object"@ || c == "put-object"@ {
            if args.len() == 5 {
                Option::Some(
                    CommandView::UploadObject {
                        bucket: args[2],
                        key: args[3],
                        file_path: args[4],
                    },
                )
            } else {
                Option::None
            }
        } else if c == "download-object"@ {
            if args.len() == 5 {
                Option::Some(
                    CommandView::DownloadObject {
                        bucket: args[2],
                        key: args[3],
                        file_path: args[4],
                    },
                )
            } else {
                Option::None
            }
        } else if c == "delete-object"@ {
            if args.len() == 4 {
                Option::Some(CommandView::DeleteObject { bucket: args[2], key: args[3] })
            } else {
                Option::None
            }
        } else if c == "head-object"@ {
            if args.len() == 4 {
                Option::Some(CommandView::HeadObject { bucket: args[2], key: args[3] })
            } else {
                Option::None
            }
        } else {
            Option::None
        }
    }
}

/// Parse a command line, the program's own name first.
pub fn parse_cli(args: &Vec<String>) -> (r: Result<Cli, CliError>)
    ensures
        match r {
            Ok(cli) => spec_parse_args(args.deep_view()) == Some(cli.command@),
            Err(e) => spec_parse_args(args.deep_view()) is None,
        },
{
    if args.len() < 2 {
        return Err(CliError::Usage);
    }
    let c = &args[1];
    if str_eq(c.as_str(), "list-buckets") {
        if args.len() == 2 {
            Ok(Cli { command: Command::ListBuckets })
        } else {
            Err(CliError::Usage)
        }
    } else if str_eq(c.as_str(), "create-bucket") {
        if args.len() == 3 {
            Ok(Cli { command: Command::CreateBucket { name: args[2].clone() } })
        } else {
            Err(CliError::Usage)
        }
    } else if str_eq(c.as_str(), "delete-bucket") {
        if args.len() == 3 {
            Ok(Cli { command: Command::DeleteBucket { name: args[2].clone() } })
        } else {
            Err(CliError::Usage)
        }
    } else if str_eq(c.as_str(), "list-objects") {
        if args.len() == 3 {
            Ok(
                Cli {
                    command: Command::ListObjects { bucket: args[2].clone(), prefix: None },
                },
            )
        } else if args.len() == 5 && (str_eq(args[3].as_str(), "-p") || str_eq(
            args[3].as_str(),
            "--prefix",
        )) {
            Ok(
                Cli {
                    command: Command::ListObjects {
                        bucket: args[2].clone(),
                        prefix: Some(args[4].clone()),
                    },
                },
            )
        } else {
            Err(CliError::Usage)
        }
    } else if str_eq(c.as_str(), "upload-object") || str_eq(c.as_str(), "put-object") {
        if args.len() == 5 {
            Ok(
                Cli {
                    command: Command::UploadObject {
                        bucket: args[2].clone(),
                        key: args[3].clone(),
                        file_path: args[4].clone(),
                    },
                },
            )
        } else {
            Err(CliError::Usage)
        }
    } else if str_eq(c.as_str(), "download-object") {
        if args.len() == 5 {
            Ok(
                Cli {
                    command: Command::DownloadObject {
                        bucket: args[2].clone(),
                        key: args[3].clone(),
                        file_path: args[4].clone(),
                    },
                },
            )
        } else {
            Err(CliError::Usage)
        }
    } else if str_eq(c.as_str(), "delete-object") {
        if args.len() == 4 {
            Ok(
                Cli {
                    command: Command::DeleteObject {
                        bucket: args[2].clone(),
                        key: args[3].clone(),
                    },
                },
            )
        } else {
            Err(CliError::Usage)
        }
    } else if str_eq(c.as_str(), "head-object") {
        if args.len() == 4 {
            Ok(
                Cli {
                    command: Command::HeadObject {
                        bucket: args[2].clone(),
                        key: args[3].clone(),
                    },
                },
            )
        } else {
            Err(CliError::Usage)
        }
    } else {
        Err(CliError::Usage)
    }
}

} // verus!
