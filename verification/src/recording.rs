//! Recording state and the OCR install guide.
use vstd::prelude::*;
use crate::json::{Json, JsonV, arr_v, obj_v, push_item, push_member, json_str};
use crate::report_blocks::string_views;
use crate::text::str_eq;

verus! {

/// Whether screenshots are being recorded, and whether recording is paused.
pub struct RecordingState {
    pub is_recording: bool,
    pub is_paused: bool,
}

/// Starts recording (and clears a pause).
pub fn start_recording(state: &mut RecordingState)
    ensures
        final(state).is_recording,
        !final(state).is_paused,
{
    state.is_recording = true;
    state.is_paused = false;
}

/// Stops recording (and clears a pause).
pub fn stop_recording(state: &mut RecordingState)
    ensures
        !final(state).is_recording,
        !final(state).is_paused,
{
    state.is_recording = false;
    state.is_paused = false;
}

/// Pauses recording; whether recording is on stays as it was.
pub fn pause_recording(state: &mut RecordingState)
    ensures
        final(state).is_recording == old(state).is_recording,
        final(state).is_paused,
{
    state.is_paused = true;
}

/// Resumes recording: recording is on and not paused.
pub fn resume_recording(state: &mut RecordingState)
    ensures
        final(state).is_recording,
        !final(state).is_paused,
{
    state.is_recording = true;
    state.is_paused = false;
}

/// The recording state as `(is_recording, is_paused)`.
pub fn get_recording_state(state: &RecordingState) -> (r: (bool, bool))
    ensures
        r == (state.is_recording, state.is_paused),
{
    (state.is_recording, state.is_paused)
}

/// Instructions for installing PaddleOCR on a platform.
pub struct OcrInstallGuide {
    pub platform: String,
    pub steps: Vec<String>,
    pub install_command: String,
    pub has_builtin_fallback: bool,
}

/// The install steps for a platform (`windows`, `macos`, or any other).
pub open spec fn ocr_steps(platform: Seq<char>) -> Seq<Seq<char>> {
    if platform == "windows"@ {
        seq!["1. 确保已安装 Python 3.8+"@, "2. 打开命令提示符或 PowerShell"@, "3. 运行以下命令安装 PaddleOCR："@, "   pip install paddlepaddle paddleocr -i https://mirror.baidu.com/pypi/simple"@, "4. 等待安装完成（首次运行会自动下载模型）"@, ""@, "备选方案：使用 Windows 内置 OCR（无需安装，但识别效果较弱）"@]
    } else if platform == "macos"@ {
        seq!["macOS 使用系统内置的 Vision 框架进行 OCR，无需额外安装。"@, ""@, "如需使用 PaddleOCR（效果更好）："@, "1. 确保已安装 Python 3.8+"@, "2. 运行以下命令："@, "   pip install paddlepaddle paddleocr"@]
    } else {
        seq!["1. 确保已安装 Python 3.8+"@, "2. 运行以下命令安装 PaddleOCR："@, "   pip install paddlepaddle paddleocr"@]
    }
}

/// The platform name a guide shows.
pub open spec fn ocr_platform_label(platform: Seq<char>) -> Seq<char> {
    if platform == "windows"@ {
        "Windows"@
    } else if platform == "macos"@ {
        "macOS"@
    } else {
        platform
    }
}

/// The install command a guide shows.
pub open spec fn ocr_install_command(platform: Seq<char>) -> Seq<char> {
    if platform == "windows"@ {
        "pip install paddlepaddle paddleocr -i https://mirror.baidu.com/pypi/simple"@
    } else {
        "pip install paddlepaddle paddleocr"@
    }
}

/// The PaddleOCR install guide for the platform `std::env::consts::OS` names: Windows and
/// macOS have a built-in fallback; other platforms need PaddleOCR.
pub fn ocr_install_guide(platform: &str) -> (r: OcrInstallGuide)
    ensures
        r.platform@ == ocr_platform_label(platform@),
        string_views(r.steps@) == ocr_steps(platform@),
        r.install_command@ == ocr_install_command(platform@),
        r.has_builtin_fallback == (platform@ == "windows"@ || platform@ == "macos"@),
{
    let mut steps: Vec<String> = Vec::new();
    if str_eq(platform, "windows") {
        steps.push("1. 确保已安装 Python 3.8+".to_owned());
        steps.push("2. 打开命令提示符或 PowerShell".to_owned());
        steps.push("3. 运行以下命令安装 PaddleOCR：".to_owned());
        steps.push("   pip install paddlepaddle paddleocr -i https://mirror.baidu.com/pypi/simple".to_owned());
        steps.push("4. 等待安装完成（首次运行会自动下载模型）".to_owned());
        steps.push("".to_owned());
        steps.push("备选方案：使用 Windows 内置 OCR（无需安装，但识别效果较弱）".to_owned());
        assert(string_views(steps@) =~= ocr_steps(platform@));
        OcrInstallGuide {
            platform: "Windows".to_owned(),
            steps,
            install_command: "pip install paddlepaddle paddleocr -i https://mirror.baidu.com/pypi/simple".to_owned(),
            has_builtin_fallback: true,
        }
    } else if str_eq(platform, "macos") {
        steps.push("macOS 使用系统内置的 Vision 框架进行 OCR，无需额外安装。".to_owned());
        steps.push("".to_owned());
        steps.push("如需使用 PaddleOCR（效果更好）：".to_owned());
        steps.push("1. 确保已安装 Python 3.8+".to_owned());
        steps.push("2. 运行以下命令：".to_owned());
        steps.push("   pip install paddlepaddle paddleocr".to_owned());
        assert(string_views(steps@) =~= ocr_steps(platform@));
        OcrInstallGuide {
            platform: "macOS".to_owned(),
            steps,
            install_command: "pip install paddlepaddle paddleocr".to_owned(),
            has_builtin_fallback: true,
        }
    } else {
        steps.push("1. 确保已安装 Python 3.8+".to_owned());
        steps.push("2. 运行以下命令安装 PaddleOCR：".to_owned());
        steps.push("   pip install paddlepaddle paddleocr".to_owned());
        assert(string_views(steps@) =~= ocr_steps(platform@));
        OcrInstallGuide {
            platform: platform.to_owned(),
            steps,
            install_command: "pip install paddlepaddle paddleocr".to_owned(),
            has_builtin_fallback: false,
        }
    }
}

/// The JSON form of a guide: `platform`, `steps`, `install_command`, `has_builtin_fallback`.
pub open spec fn guide_json(platform: Seq<char>, steps: Seq<Seq<char>>, command: Seq<char>, fallback: bool) -> JsonV {
    JsonV::Object(
        seq![
            ("platform"@, JsonV::Str(platform)),
            ("steps"@, JsonV::Array(steps.map_values(|t: Seq<char>| JsonV::Str(t)))),
            ("install_command"@, JsonV::Str(command)),
            ("has_builtin_fallback"@, JsonV::Bool(fallback)),
        ],
    )
}

impl OcrInstallGuide {
    /// The JSON form the front end receives (see `guide_json`).
    pub fn to_json(&self) -> (r: Json)
        ensures
            r@ == guide_json(self.platform@, string_views(self.steps@), self.install_command@, self.has_builtin_fallback),
    {
        let mut steps: Vec<Json> = Vec::new();
        let mut i: usize = 0;
        while i < self.steps.len()
            invariant
                i <= self.steps.len(),
                arr_v(steps@) == string_views(self.steps@).take(i as int).map_values(|t: Seq<char>| JsonV::Str(t)),
            decreases self.steps.len() - i,
        {
            let ghost before = arr_v(steps@);
            push_item(&mut steps, json_str(self.steps[i].as_str()));
            assert(string_views(self.steps@).take(i + 1).map_values(|t: Seq<char>| JsonV::Str(t)) =~= before.push(
                JsonV::Str(self.steps@[i as int]@),
            ));
            i = i + 1;
        }
        assert(string_views(self.steps@).take(self.steps.len() as int) =~= string_views(self.steps@));
        let mut m: Vec<(String, Json)> = Vec::new();
        push_member(&mut m, "platform", json_str(self.platform.as_str()));
        push_member(&mut m, "steps", Json::Array(steps));
        push_member(&mut m, "install_command", json_str(self.install_command.as_str()));
        push_member(&mut m, "has_builtin_fallback", Json::Bool(self.has_builtin_fallback));
        assert(obj_v(m@) =~= guide_json(
            self.platform@,
            string_views(self.steps@),
            self.install_command@,
            self.has_builtin_fallback,
        )->Object_0);
        Json::Object(m)
    }
}

/// The answer of the OCR check: whether PaddleOCR is available, its install command, and
/// the platform.
pub open spec fn ocr_availability_spec(available: bool, install_command: Seq<char>, platform: Seq<char>) -> JsonV {
    JsonV::Object(
        seq![
            ("paddle_ocr_available"@, JsonV::Bool(available)),
            ("install_command"@, JsonV::Str(install_command)),
            ("platform"@, JsonV::Str(platform)),
        ],
    )
}

/// The answer of the OCR check (see `ocr_availability_spec`).
pub fn ocr_availability(available: bool, install_command: &str, platform: &str) -> (r: Json)
    ensures
        r@ == ocr_availability_spec(available, install_command@, platform@),
{
    let mut m: Vec<(String, Json)> = Vec::new();
    push_member(&mut m, "paddle_ocr_available", Json::Bool(available));
    push_member(&mut m, "install_command", json_str(install_command));
    push_member(&mut m, "platform", json_str(platform));
    assert(obj_v(m@) =~= ocr_availability_spec(available, install_command@, platform@)->Object_0);
    Json::Object(m)
}

/// Whether a screenshot may be taken without an active window: only in a Linux Wayland
/// session (where the window cannot be read); elsewhere the capture fails with
/// `获取当前活动窗口失败`.
pub fn capture_without_window(is_linux: bool, is_wayland: bool) -> (r: Result<(), String>)
    ensures
        r is Ok <==> (is_linux && is_wayland),
        r matches Err(e) ==> e@ == "获取当前活动窗口失败"@,
{
    if is_linux && is_wayland {
        Ok(())
    } else {
        Err("获取当前活动窗口失败".to_owned())
    }
}

/// The application and window names a screenshot is recorded under: the active window's,
/// or `Wayland Session` and `Wayland screenshot` when there is none.
pub fn capture_labels(window: Option<(&str, &str)>) -> (r: (String, String))
    ensures
        match window {
            Some((app, title)) => r.0@ == app@ && r.1@ == title@,
            None => r.0@ == "Wayland Session"@ && r.1@ == "Wayland screenshot"@,
        },
{
    match window {
        Some((app, title)) => (app.to_owned(), title.to_owned()),
        None => ("Wayland Session".to_owned(), "Wayland screenshot".to_owned()),
    }
}

/// How long one screenshot's activity counts for, in seconds.
pub const CAPTURE_DURATION_SECS: i64 = 30;

} // verus!
