//! What can go wrong, and how it is told to the user.

use vstd::prelude::*;

verus! {

/// A failure of the environment management. Paths, causes and statuses are held
/// as the caller shows them.
#[derive(Debug, PartialEq, Eq)]
pub enum EnvError {
    /// A version that is neither `X.Y` nor `X.Y.Z`.
    InvalidVersion(String),
    /// No `uv` executable anywhere.
    UvNotFound,
    /// No managed interpreter of the wanted version under the install root.
    NoManagedPython { wanted: String, root: String },
    /// The interpreter to be asked for its version is no file.
    PythonExeNotFound(String),
    /// The interpreter could not be started to ask for its version.
    VersionNotRun(String),
    /// The interpreter failed when asked for its version.
    VersionFailed { exe: String, stdout: String },
    /// The interpreter answered something other than a version.
    VersionUnusable { exe: String, stdout: String },
    /// The interpreter to install for is no file.
    ManagedPythonMissing(String),
    /// The project directory is no directory.
    ProjectDirMissing(String),
    /// The configuration was not loaded.
    ConfigMissing,
    /// The requirements file is no file.
    RequirementsMissing(String),
    /// Installing requirements is not possible on this platform.
    InstallUnsupported,
    /// Setting up an interpreter is not possible on this platform.
    SetupUnsupported,
    /// A command could not be started.
    SpawnFailed { description: String, cause: String },
    /// A started command has no process id.
    NoPid,
    /// A started command has no standard output.
    NoStdout(String),
    /// A started command has no standard error.
    NoStderr(String),
    /// The user cancelled the operation.
    Cancelled,
    /// A command ended without success.
    CommandFailed { description: String, status: String },
    /// `uv` could not be started.
    UvNotRun { args: String, app_name: String },
    /// `uv` ended without success.
    UvFailed { args: String, app_name: String, stderr: String },
    /// Another failure of the system, in its own words.
    Io(String),
}

impl EnvError {
    /// The message that the user sees.
    pub open spec fn text(&self) -> Seq<char> {
        match self {
            EnvError::InvalidVersion(version) => "Invalid version format: "@ + version@
                + ". Expected X.Y or X.Y.Z"@,
            EnvError::UvNotFound =>
                "uv.exe was not found. It must ship next to the launcher executable (or be provided via UV_EXECUTABLE / PATH)."@,
            EnvError::NoManagedPython { wanted, root } => "No uv-managed Python matching '"@
                + wanted@ + "' found under '"@ + root@ + "'. Run setup again."@,
            EnvError::PythonExeNotFound(exe) => "Python executable not found at "@ + exe@,
            EnvError::VersionNotRun(exe) => "Failed to execute "@ + exe@ + " --version"@,
            EnvError::VersionFailed { exe, stdout } => "Python --version command failed for "@
                + exe@ + ": Stdout: '"@ + stdout@ + "'"@,
            EnvError::VersionUnusable { exe, stdout } => "Python --version for "@ + exe@
                + " produced no usable 'Python x.y.z' output: '"@ + stdout@ + "'"@,
            EnvError::ManagedPythonMissing(exe) => "Managed Python executable not found at "@ + exe@
                + ". Run setup again."@,
            EnvError::ProjectDirMissing(dir) =>
                "Project directory for uv execution not found or not a directory: "@ + dir@,
            EnvError::ConfigMissing =>
                "GLOBAL_CONFIG_STATE not initialized. Call init_config_manager first."@,
            EnvError::RequirementsMissing(file) => "Requirements file not found at "@ + file@,
            EnvError::InstallUnsupported => "install_requirements is only implemented for Windows."@,
            EnvError::SetupUnsupported => "setup_python_env is only implemented for Windows."@,
            EnvError::SpawnFailed { description, cause } => "Failed to spawn command ("@
                + description@ + "): "@ + cause@,
            EnvError::NoPid => "Failed to get spawned command pid"@,
            EnvError::NoStdout(description) => "Could not capture stdout from command ("@
                + description@ + ")"@,
            EnvError::NoStderr(description) => "Could not capture stderr from command ("@
                + description@ + ")"@,
            EnvError::Cancelled => "Operation cancelled by the user."@,
            EnvError::CommandFailed { description, status } => "Command failed ("@ + description@
                + "): "@ + status@,
            EnvError::UvNotRun { args, app_name } => "Failed to run uv "@ + args@ + " for '"@
                + app_name@ + "'"@,
            EnvError::UvFailed { args, app_name, stderr } => "uv "@ + args@ + " failed for '"@
                + app_name@ + "': "@ + stderr@,
            EnvError::Io(text) => text@,
        }
    }

    /// The message that the user sees.
    pub fn message(&self) -> (r: String)
        ensures
            r@ == self.text(),
    {
        let mut r = String::new();
        match self {
            EnvError::InvalidVersion(version) => {
                r.append("Invalid version format: ");
                r.append(version.as_str());
                r.append(". Expected X.Y or X.Y.Z");
            },
            EnvError::UvNotFound => {
                r.append(
                    "uv.exe was not found. It must ship next to the launcher executable (or be provided via UV_EXECUTABLE / PATH).",
                );
            },
            EnvError::NoManagedPython { wanted, root } => {
                r.append("No uv-managed Python matching '");
                r.append(wanted.as_str());
                r.append("' found under '");
                r.append(root.as_str());
                r.append("'. Run setup again.");
            },
            EnvError::PythonExeNotFound(exe) => {
                r.append("Python executable not found at ");
                r.append(exe.as_str());
            },
            EnvError::VersionNotRun(exe) => {
                r.append("Failed to execute ");
                r.append(exe.as_str());
                r.append(" --version");
            },
            EnvError::VersionFailed { exe, stdout } => {
                r.append("Python --version command failed for ");
                r.append(exe.as_str());
                r.append(": Stdout: '");
                r.append(stdout.as_str());
                r.append("'");
            },
            EnvError::VersionUnusable { exe, stdout } => {
                r.append("Python --version for ");
                r.append(exe.as_str());
                r.append(" produced no usable 'Python x.y.z' output: '");
                r.append(stdout.as_str());
                r.append("'");
            },
            EnvError::ManagedPythonMissing(exe) => {
                r.append("Managed Python executable not found at ");
                r.append(exe.as_str());
                r.append(". Run setup again.");
            },
            EnvError::ProjectDirMissing(dir) => {
                r.append("Project directory for uv execution not found or not a directory: ");
                r.append(dir.as_str());
            },
            EnvError::ConfigMissing => {
                r.append("GLOBAL_CONFIG_STATE not initialized. Call init_config_manager first.");
            },
            EnvError::RequirementsMissing(file) => {
                r.append("Requirements file not found at ");
                r.append(file.as_str());
            },
            EnvError::InstallUnsupported => {
                r.append("install_requirements is only implemented for Windows.");
            },
            EnvError::SetupUnsupported => {
                r.append("setup_python_env is only implemented for Windows.");
            },
            EnvError::SpawnFailed { description, cause } => {
                r.append("Failed to spawn command (");
                r.append(description.as_str());
                r.append("): ");
                r.append(cause.as_str());
            },
            EnvError::NoPid => {
                r.append("Failed to get spawned command pid");
            },
            EnvError::NoStdout(description) => {
                r.append("Could not capture stdout from command (");
                r.append(description.as_str());
                r.append(")");
            },
            EnvError::NoStderr(description) => {
                r.append("Could not capture stderr from command (");
                r.append(description.as_str());
                r.append(")");
            },
            EnvError::Cancelled => {
                r.append("Operation cancelled by the user.");
            },
            EnvError::CommandFailed { description, status } => {
                r.append("Command failed (");
                r.append(description.as_str());
                r.append("): ");
                r.append(status.as_str());
            },
            EnvError::UvNotRun { args, app_name } => {
                r.append("Failed to run uv ");
                r.append(args.as_str());
                r.append(" for '");
                r.append(app_name.as_str());
                r.append("'");
            },
            EnvError::UvFailed { args, app_name, stderr } => {
                r.append("uv ");
                r.append(args.as_str());
                r.append(" failed for '");
                r.append(app_name.as_str());
                r.append("': ");
                r.append(stderr.as_str());
            },
            EnvError::Io(text) => {
                r.append(text.as_str());
            },
        }
        assert(r@ =~= self.text());
        r
    }
}

/// Every message says what went wrong and, where it is about something, names it:
/// the same words for every value, with the value as it is.
pub proof fn law_messages(a: String, b: String, c: String)
    ensures
        EnvError::InvalidVersion(a).text() == "Invalid version format: "@ + a@
            + ". Expected X.Y or X.Y.Z"@,
        (EnvError::NoManagedPython { wanted: a, root: b }).text()
            == "No uv-managed Python matching '"@ + a@ + "' found under '"@ + b@
            + "'. Run setup again."@,
        EnvError::PythonExeNotFound(a).text() == "Python executable not found at "@ + a@,
        EnvError::VersionNotRun(a).text() == "Failed to execute "@ + a@ + " --version"@,
        (EnvError::VersionFailed { exe: a, stdout: b }).text()
            == "Python --version command failed for "@ + a@ + ": Stdout: '"@ + b@ + "'"@,
        (EnvError::VersionUnusable { exe: a, stdout: b }).text() == "Python --version for "@ + a@
            + " produced no usable 'Python x.y.z' output: '"@ + b@ + "'"@,
        EnvError::ManagedPythonMissing(a).text() == "Managed Python executable not found at "@ + a@
            + ". Run setup again."@,
        EnvError::ProjectDirMissing(a).text()
            == "Project directory for uv execution not found or not a directory: "@ + a@,
        EnvError::RequirementsMissing(a).text() == "Requirements file not found at "@ + a@,
        (EnvError::SpawnFailed { description: a, cause: b }).text() == "Failed to spawn command ("@
            + a@ + "): "@ + b@,
        EnvError::NoStdout(a).text() == "Could not capture stdout from command ("@ + a@ + ")"@,
        EnvError::NoStderr(a).text() == "Could not capture stderr from command ("@ + a@ + ")"@,
        (EnvError::CommandFailed { description: a, status: b }).text() == "Command failed ("@ + a@
            + "): "@ + b@,
        (EnvError::UvNotRun { args: a, app_name: b }).text() == "Failed to run uv "@ + a@ + " for '"@
            + b@ + "'"@,
        (EnvError::UvFailed { args: a, app_name: b, stderr: c }).text() == "uv "@ + a@
            + " failed for '"@ + b@ + "': "@ + c@,
        EnvError::Io(a).text() == a@,
        EnvError::UvNotFound.text()
            == "uv.exe was not found. It must ship next to the launcher executable (or be provided via UV_EXECUTABLE / PATH)."@,
        EnvError::ConfigMissing.text()
            == "GLOBAL_CONFIG_STATE not initialized. Call init_config_manager first."@,
        EnvError::InstallUnsupported.text()
            == "install_requirements is only implemented for Windows."@,
        EnvError::SetupUnsupported.text() == "setup_python_env is only implemented for Windows."@,
        EnvError::NoPid.text() == "Failed to get spawned command pid"@,
        EnvError::Cancelled.text() == "Operation cancelled by the user."@,
{
}

} // verus!
