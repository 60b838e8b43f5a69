use hyperlight_unikraft::script::patched_script;
use hyperlight_unikraft::script::strip_code_fence;
use hyperlight_unikraft::script::ZIPFILE_PATCH;

#[test]
fn bare_code_is_trimmed() {
    assert_eq!(strip_code_fence("print(1)"), "print(1)");
    assert_eq!(strip_code_fence("  print(1)\n\n"), "print(1)");
    assert_eq!(strip_code_fence(""), "");
    assert_eq!(strip_code_fence(" \n\t"), "");
}

#[test]
fn a_python_fence_is_taken_off() {
    assert_eq!(strip_code_fence("```python\nprint(1)\n```"), "print(1)");
    assert_eq!(strip_code_fence("\n```python\nimport os\nprint(1)\n```\n"), "import os\nprint(1)");
}

#[test]
fn a_plain_fence_is_taken_off() {
    assert_eq!(strip_code_fence("```\nprint(1)\n```"), "print(1)");
    assert_eq!(strip_code_fence("```py\nprint(1)\n```"), "py\nprint(1)");
    assert_eq!(strip_code_fence("``````"), "");
    assert_eq!(strip_code_fence("```python```"), "");
}

#[test]
fn a_closing_fence_alone_is_taken_off() {
    assert_eq!(strip_code_fence("print(1)\n```"), "print(1)");
    // Not when white space follows it: the reply is then kept as it came.
    assert_eq!(strip_code_fence("print(1)\n```\n"), "print(1)\n```");
}

#[test]
fn a_reply_without_closing_fence_is_kept_whole() {
    assert_eq!(strip_code_fence("```python\nprint(1)\n"), "```python\nprint(1)");
    assert_eq!(strip_code_fence("```"), "```");
    assert_eq!(strip_code_fence("```python"), "```python");
}

#[test]
fn only_the_outer_fences_are_taken_off() {
    assert_eq!(
        strip_code_fence("```python\na = '''```'''\n```"),
        "a = '''```'''"
    );
    assert_eq!(strip_code_fence("```\n```\n```"), "```");
}

#[test]
fn the_patch_comes_before_the_code() {
    let script = patched_script("print(1)\n");
    assert!(script.starts_with("\n# Patch zipfile to handle timestamps before 1980"));
    assert!(script.ends_with("zipfile.ZipInfo.__init__ = _patched_ZipInfo_init\n\nprint(1)\n"));
    assert_eq!(script.len(), ZIPFILE_PATCH.len() + 9);
    assert_eq!(patched_script(""), ZIPFILE_PATCH);
}

#[test]
fn the_patch_is_valid_python_text() {
    assert_eq!(ZIPFILE_PATCH.lines().count(), 10);
    assert!(ZIPFILE_PATCH.contains("def _patched_ZipInfo_init(self, filename=\"NoName\", date_time=None):\n    if date_time is None or date_time[0] < 1980:\n        date_time = (2024, 1, 1, 0, 0, 0)\n"));
}
