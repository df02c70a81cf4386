//! The typed command a command line parses to, and the decisions the
//! dispatcher takes for it: what to report on success, and how to treat a
//! failure from the service.

use vstd::prelude::*;

verus! {

/// A parsed invocation: which operation to perform, with its parameters.
pub enum Command {
    ListBuckets,
    CreateBucket { name: String },
    DeleteBucket { name: String },
    ListObjects { bucket: String, prefix: Option<String> },
    UploadObject { bucket: String, key: String, file_path: String },
    DownloadObject { bucket: String, key: String, file_path: String },
    DeleteObject { bucket: String, key: String },
    HeadObject { bucket: String, key: String },
}

/// The mathematical shape of a command.
pub enum CommandView {
    ListBuckets,
    CreateBucket { name: Seq<char> },
    DeleteBucket { name: Seq<char> },
    ListObjects { bucket: Seq<char>, prefix: Option<Seq<char>> },
    UploadObject { bucket: Seq<char>, key: Seq<char>, file_path: Seq<char> },
    DownloadObject { bucket: Seq<char>, key: Seq<char>, file_path: Seq<char> },
    DeleteObject { bucket: Seq<char>, key: Seq<char> },
    HeadObject { bucket: Seq<char>, key: Seq<char> },
}

impl View for Command {
    type V = CommandView;

    open spec fn view(&self) -> CommandView {
        match self {
            Command::ListBuckets => CommandView::ListBuckets,
            Command::CreateBucket { name } => CommandView::CreateBucket { name: name@ },
            Command::DeleteBucket { name } => CommandView::DeleteBucket { name: name@ },
            Command::ListObjects { bucket, prefix } => CommandView::ListObjects {
                bucket: bucket@,
                prefix: prefix.deep_view(),
            },
            Command::UploadObject { bucket, key, file_path } => CommandView::UploadObject {
                bucket: bucket@,
                key: key@,
                file_path: file_path@,
            },
            Command::DownloadObject { bucket, key, file_path } => CommandView::DownloadObject {
                bucket: bucket@,
                key: key@,
                file_path: file_path@,
            },
            Command::DeleteObject { bucket, key } => CommandView::DeleteObject {
                bucket: bucket@,
                key: key@,
            },
            Command::HeadObject { bucket, key } => CommandView::HeadObject {
                bucket: bucket@,
                key: key@,
            },
        }
    }
}

/// What is printed when a command's one operation succeeded; the listing
/// commands print their lines instead and have no summary.
pub open spec fn spec_success_message(c: CommandView) -> Option<Seq<char>> {
    match c {
        CommandView::ListBuckets => Option::None,
        CommandView::ListObjects { bucket, prefix } => Option::None,
        CommandView::CreateBucket { name } => Option::Some(
            "Bucket '"@ + name + "' created successfully"@,
        ),
        CommandView::DeleteBucket { name } => Option::Some(
            "Bucket '"@ + name + "' deleted successfully"@,
        ),
        CommandView::UploadObject { bucket, key, file_path } => Option::Some(
            "Object '"@ + key + "' uploaded successfully to bucket '"@ + bucket + "'"@,
        ),
        CommandView::DownloadObject { bucket, key, file_path } => Option::Some(
            "Object '"@ + key + "' downloaded successfully from bucket '"@ + bucket + "'"@,
        ),
        CommandView::DeleteObject { bucket, key } => Option::Some(
            "Object '"@ + key + "' deleted successfully from bucket '"@ + bucket + "'"@,
        ),
        CommandView::HeadObject { bucket, key } => Option::None,
    }
}

impl Command {
    /// The line to print when this command's operation succeeded.
    pub fn success_message(&self) -> (r: Option<String>)
        ensures
            r.deep_view() == spec_success_message(self@),
    {
        match self {
            Command::ListBuckets => None,
            Command::ListObjects { bucket, prefix } => None,
            Command::CreateBucket { name } => {
                Some(crate::text::concat3("Bucket '", name.as_str(), "' created successfully"))
            },
            Command::DeleteBucket { name } => {
                Some(crate::text::concat3("Bucket '", name.as_str(), "' deleted successfully"))
            },
            Command::UploadObject { bucket, key, file_path } => {
                let mut s = crate::text::concat3("Object '", key.as_str(),
                    "' uploaded successfully to bucket '");
                s.append(bucket.as_str());
                s.append("'");
                Some(s)
            },
            Command::DownloadObject { bucket, key, file_path } => {
                let mut s = crate::text::concat3("Object '", key.as_str(),
                    "' downloaded successfully from bucket '");
                s.append(bucket.as_str());
                s.append("'");
                Some(s)
            },
            Command::DeleteObject { bucket, key } => {
                let mut s = crate::text::concat3("Object '", key.as_str(),
                    "' deleted successfully from bucket '");
                s.append(bucket.as_str());
                s.append("'");
                Some(s)
            },
            Command::HeadObject { bucket, key } => None,
        }
    }

    /// The process exit code after the service refused this command: deleting
    /// a bucket reports the failure and still exits cleanly, every other
    /// command fails the process.
    pub fn exit_code_on_remote_error(&self) -> (r: i32)
        ensures
            r == (if self@ is DeleteBucket {
                0int
            } else {
                1int
            }),
    {
        match self {
            Command::DeleteBucket { name } => 0,
            _ => 1,
        }
    }
}

/// The line reporting a refused bucket deletion: the service's error code
/// (`403` when it gave none) and its message (empty when it gave none).
pub open spec fn spec_delete_bucket_error_line(
    code: Option<Seq<char>>,
    message: Option<Seq<char>>,
) -> Seq<char> {
    (match code {
        Option::Some(c) => c,
        Option::None => "403"@,
    }) + " "@ + (match message {
        Option::Some(m) => m,
        Option::None => ""@,
    })
}

/// Render the report for a refused bucket deletion.
pub fn delete_bucket_error_line(code: &Option<String>, message: &Option<String>) -> (r: String)
    ensures
        r@ == spec_delete_bucket_error_line(code.deep_view(), message.deep_view()),
{
    let mut out: String = match code {
        Option::Some(c) => c.clone(),
        Option::None => "403".to_owned(),
    };
    out.append(" ");
    match message {
        Option::Some(m) => out.append(m.as_str()),
        Option::None => (),
    }
    proof {
        if message is None {
            reveal_strlit("");
            assert(out@ =~= spec_delete_bucket_error_line(code.deep_view(), message.deep_view()));
        }
    }
    out
}

} // verus!
