//! Where the log files go and what their lines look like.
use vstd::prelude::*;

verus! {

/// The directory of the logs of one run.
pub open spec fn spec_log_dir(subfolder: Seq<char>) -> Seq<char> {
    "./logs/"@ + subfolder
}

/// The path of a log file.
pub open spec fn spec_log_file_path(subfolder: Seq<char>, filename: Seq<char>, file_type: Seq<char>) -> Seq<char> {
    spec_log_dir(subfolder) + "/"@ + filename + "."@ + file_type
}

/// The directory of the logs of one run: `./logs/<subfolder>`.
pub fn log_dir(subfolder: &str) -> (s: String)
    ensures
        s@ == spec_log_dir(subfolder@),
{
    let mut s = String::from_str("./logs/");
    s.append(subfolder);
    s
}

/// The path of a log file: `./logs/<subfolder>/<filename>.<file_type>`.
pub fn log_file_path(subfolder: &str, filename: &str, file_type: &str) -> (s: String)
    ensures
        s@ == spec_log_file_path(subfolder@, filename@, file_type@),
{
    let mut s = log_dir(subfolder);
    s.append("/");
    s.append(filename);
    s.append(".");
    s.append(file_type);
    s
}

/// The first line of the execution log, naming its columns.
pub fn execution_log_header() -> (s: &'static str)
    ensures
        s@ == "time,sent_data,from_port,to_port,received_data,action"@,
{
    "time,sent_data,from_port,to_port,received_data,action"
}

/// One line of a log: the time it was written, a comma, and the message.
pub fn log_line(time: &str, message: &str) -> (s: String)
    ensures
        s@ == time@ + ","@ + message@,
{
    let mut s = String::from_str(time);
    s.append(",");
    s.append(message);
    s
}

} // verus!
