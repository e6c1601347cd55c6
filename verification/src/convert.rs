//! Exporting a checkpoint to the model file format with an outside script.
use crate::error::{message, CoreError, ErrorView};
use crate::paths::{join, join_path};
use crate::text::{dec_i64, dec_int, strings};
use vstd::prelude::*;
use vstd::string::*;

verus! {

/// What to export, and with what.
#[derive(Debug)]
pub struct ConvertPlan {
    pub checkpoint_dir: String,
    pub codec_path: String,
    pub output_path: String,
    pub out_dtype: String,
    pub python_exe: String,
    pub script_path: String,
}

/// What is missing for an export, given which files exist.
pub open spec fn plan_error(
    plan: ConvertPlan,
    config_exists: bool,
    codec_exists: bool,
    script_exists: bool,
) -> Option<ErrorView> {
    if !config_exists {
        Some(message("missing config.json in "@ + plan.checkpoint_dir@))
    } else if !codec_exists {
        Some(message("codec not found: "@ + plan.codec_path@))
    } else if !script_exists {
        Some(
            message(
                "export script not found: "@ + plan.script_path@
                    + " (clone rodrigomatta/s2.cpp and set quantize/unified_export_gguf.py)"@,
            ),
        )
    } else {
        None
    }
}

/// The command line of an export, as it is shown.
pub open spec fn preview_of(plan: ConvertPlan) -> Seq<char> {
    plan.python_exe@ + " "@ + plan.script_path@ + " --checkpoint-path \""@ + plan.checkpoint_dir@
        + "\" --codec-checkpoint-path \""@ + plan.codec_path@ + "\" --output \""@
        + plan.output_path@ + "\" --out-dtype "@ + plan.out_dtype@
}

/// The arguments that the script is run with.
pub open spec fn arguments_of(plan: ConvertPlan) -> Seq<Seq<char>> {
    seq![
        plan.script_path@,
        "--checkpoint-path"@,
        plan.checkpoint_dir@,
        "--codec-checkpoint-path"@,
        plan.codec_path@,
        "--output"@,
        plan.output_path@,
        "--out-dtype"@,
        plan.out_dtype@,
    ]
}

/// An exit code as it is shown; a process ended by a signal has none.
pub open spec fn exit_text(code: Option<i32>) -> Seq<char> {
    match code {
        Some(c) => "Some("@ + dec_int(c as int) + ")"@,
        None => "None"@,
    }
}

/// What a finished export comes to.
pub open spec fn export_result(
    success: bool,
    code: Option<i32>,
    stdout: Seq<char>,
    stderr: Seq<char>,
) -> Result<Seq<char>, ErrorView> {
    if success {
        Ok(stdout + "\n"@ + stderr)
    } else {
        Err(
            message(
                "GGUF export failed (exit "@ + exit_text(code) + ")\nstdout:\n"@ + stdout
                    + "\nstderr:\n"@ + stderr,
            ),
        )
    }
}

impl ConvertPlan {
    /// The configuration file that a checkpoint must have.
    pub fn config_file(&self) -> (r: String)
        ensures
            r@ == join(self.checkpoint_dir@, "config.json"@),
    {
        join_path(self.checkpoint_dir.as_str(), "config.json")
    }

    /// Checks that everything the export needs is there.
    pub fn validate(&self, config_exists: bool, codec_exists: bool, script_exists: bool) -> (r:
        Result<(), CoreError>)
        ensures
            match r {
                Ok(_) => plan_error(*self, config_exists, codec_exists, script_exists) is None,
                Err(e) => plan_error(*self, config_exists, codec_exists, script_exists) == Some(
                    e@,
                ),
            },
    {
        if !config_exists {
            return Err(
                CoreError::Message(
                    String::from_str("missing config.json in ").concat(
                        self.checkpoint_dir.as_str(),
                    ),
                ),
            );
        }
        if !codec_exists {
            return Err(
                CoreError::Message(
                    String::from_str("codec not found: ").concat(self.codec_path.as_str()),
                ),
            );
        }
        if !script_exists {
            return Err(
                CoreError::Message(
                    String::from_str("export script not found: ").concat(
                        self.script_path.as_str(),
                    ).concat(
                        " (clone rodrigomatta/s2.cpp and set quantize/unified_export_gguf.py)",
                    ),
                ),
            );
        }
        Ok(())
    }

    /// The command line of the export, as it is shown.
    pub fn command_preview(&self) -> (r: String)
        ensures
            r@ == preview_of(*self),
    {
        self.python_exe.clone().concat(" ").concat(self.script_path.as_str()).concat(
            " --checkpoint-path \"",
        ).concat(self.checkpoint_dir.as_str()).concat("\" --codec-checkpoint-path \"").concat(
            self.codec_path.as_str(),
        ).concat("\" --output \"").concat(self.output_path.as_str()).concat(
            "\" --out-dtype ",
        ).concat(self.out_dtype.as_str())
    }

    /// The arguments that the script is run with.
    pub fn arguments(&self) -> (r: Vec<String>)
        ensures
            strings(r@) == arguments_of(*self),
    {
        let mut args: Vec<String> = Vec::new();
        args.push(self.script_path.clone());
        args.push(String::from_str("--checkpoint-path"));
        args.push(self.checkpoint_dir.clone());
        args.push(String::from_str("--codec-checkpoint-path"));
        args.push(self.codec_path.clone());
        args.push(String::from_str("--output"));
        args.push(self.output_path.clone());
        args.push(String::from_str("--out-dtype"));
        args.push(self.out_dtype.clone());
        assert(strings(args@) =~= arguments_of(*self));
        args
    }

    /// The error of an export that could not be started, for the reason given.
    pub fn launch_error(&self, reason: &str) -> (r: CoreError)
        ensures
            r@ == message("failed to run python ("@ + self.python_exe@ + "): "@ + reason@),
    {
        CoreError::Message(
            String::from_str("failed to run python (").concat(self.python_exe.as_str()).concat(
                "): ",
            ).concat(reason),
        )
    }

    /// What the finished export comes to.
    pub fn outcome(&self, success: bool, code: Option<i32>, stdout: &str, stderr: &str) -> (r:
        Result<String, CoreError>)
        ensures
            match r {
                Ok(t) => export_result(success, code, stdout@, stderr@) == Ok::<
                    Seq<char>,
                    ErrorView,
                >(t@),
                Err(e) => export_result(success, code, stdout@, stderr@) == Err::<
                    Seq<char>,
                    ErrorView,
                >(e@),
            },
    {
        if success {
            return Ok(String::from_str(stdout).concat("\n").concat(stderr));
        }
        let exit = match code {
            Some(c) => {
                let digits = dec_i64(c as i64);
                String::from_str("Some(").concat(digits.as_str()).concat(")")
            },
            None => String::from_str("None"),
        };
        Err(
            CoreError::Message(
                String::from_str("GGUF export failed (exit ").concat(exit.as_str()).concat(
                    ")\nstdout:\n",
                ).concat(stdout).concat("\nstderr:\n").concat(stderr),
            ),
        )
    }
}

/// Where the export script is looked for.
pub open spec fn script_candidates() -> Seq<Seq<char>> {
    seq![
        "scripts/unified_export_gguf.py"@,
        "../s2.cpp/quantize/unified_export_gguf.py"@,
        "s2.cpp/quantize/unified_export_gguf.py"@,
    ]
}

/// Where the export script is looked for.
pub fn default_export_script_paths() -> (r: Vec<String>)
    ensures
        strings(r@) == script_candidates(),
{
    let mut out: Vec<String> = Vec::new();
    out.push(String::from_str("scripts/unified_export_gguf.py"));
    out.push(String::from_str("../s2.cpp/quantize/unified_export_gguf.py"));
    out.push(String::from_str("s2.cpp/quantize/unified_export_gguf.py"));
    assert(strings(out@) =~= script_candidates());
    out
}

/// The first candidate from `i` on that exists, else the configured path.
pub open spec fn first_existing(
    candidates: Seq<Seq<char>>,
    exists_flags: Seq<bool>,
    i: int,
    configured: Seq<char>,
) -> Seq<char>
    decreases candidates.len() - i,
{
    if i < 0 || i >= candidates.len() {
        configured
    } else if exists_flags[i] {
        candidates[i]
    } else {
        first_existing(candidates, exists_flags, i + 1, configured)
    }
}

/// The configured path where it exists, else the first candidate that does, else the configured
/// path after all.
pub open spec fn resolved(
    configured: Seq<char>,
    configured_exists: bool,
    candidates: Seq<Seq<char>>,
    exists_flags: Seq<bool>,
) -> Seq<char> {
    if configured_exists {
        configured
    } else {
        first_existing(candidates, exists_flags, 0, configured)
    }
}

/// Picks the path to use out of a configured one and candidates, given which of them exist.
pub fn resolve_path(
    configured: &str,
    configured_exists: bool,
    candidates: &Vec<String>,
    exists_flags: &[bool],
) -> (r: String)
    requires
        exists_flags@.len() == candidates@.len(),
    ensures
        r@ == resolved(configured@, configured_exists, strings(candidates@), exists_flags@),
{
    if configured_exists {
        return String::from_str(configured);
    }
    let ghost texts = strings(candidates@);
    let mut i: usize = 0;
    while i < candidates.len()
        invariant
            i <= candidates@.len(),
            exists_flags@.len() == candidates@.len(),
            texts == strings(candidates@),
            !configured_exists,
            first_existing(texts, exists_flags@, 0, configured@) == first_existing(
                texts,
                exists_flags@,
                i as int,
                configured@,
            ),
        decreases candidates@.len() - i,
    {
        if exists_flags[i] {
            return candidates[i].clone();
        }
        i = i + 1;
    }
    String::from_str(configured)
}

/// The export script to use, given which of the default places hold one.
pub fn resolve_export_script(configured: &str, configured_exists: bool, found: &[bool]) -> (r:
    String)
    requires
        found@.len() == 3,
    ensures
        r@ == resolved(configured@, configured_exists, script_candidates(), found@),
{
    let candidates = default_export_script_paths();
    proof {
        assert(strings(candidates@).len() == 3);
    }
    resolve_path(configured, configured_exists, &candidates, found)
}

/// The codec that belongs to a checkpoint.
pub fn checkpoint_codec_path(checkpoint_dir: &str) -> (r: String)
    ensures
        r@ == join(checkpoint_dir@, "codec.pth"@),
{
    join_path(checkpoint_dir, "codec.pth")
}

/// The file that an export with the given precision goes to.
pub fn export_output_path(models_dir: &str, dtype: &str) -> (r: String)
    ensures
        r@ == join(models_dir@, "s2-pro-export-"@ + dtype@ + ".gguf"@),
{
    let name = String::from_str("s2-pro-export-").concat(dtype).concat(".gguf");
    join_path(models_dir, name.as_str())
}

} // verus!
