//! Dialogue flow scenarios.
use asterism::dialogue_controller::{DialogueAction, DialogueController, DialogueLine, DialogueState};
use asterism::typewriter::TypewriterSpeed;

/// 辅助函数：快速构造 DialogueLine
fn line(speaker: &str, text: &str) -> DialogueLine {
    DialogueLine {
        speaker: speaker.to_string(),
        text: text.to_string(),
        voice_id: None,
    }
}

// ========================================================================
// AC01 — push 对话后自动开始打字机动画
// ========================================================================

/// AC01: Idle 状态下 push → 立即开始 Typewriting。
#[test]
fn ac01_push_from_idle_starts_typewriting() {
    let mut dc = DialogueController::new(TypewriterSpeed::Normal);
    assert_eq!(dc.state(), DialogueState::Idle);

    dc.push(line("小百合", "今天天气真好啊。"));

    assert_eq!(dc.state(), DialogueState::Typewriting);
    assert_eq!(dc.current_speaker(), "小百合");
    assert_eq!(dc.current_text(), "今天天气真好啊。");
}

/// AC01: push 后 update(0) → 状态不变（还是 Typewriting，等待时间积累）。
#[test]
fn ac01_update_zero_keeps_typewriting() {
    let mut dc = DialogueController::new(TypewriterSpeed::Normal);
    dc.push(line("A", "Hello"));

    let state = dc.update(0);
    assert_eq!(state, DialogueState::Typewriting);
    assert!(dc.current_visible_chars() == 0 || dc.current_visible_chars() > 0);
    // Normal 速度，0ms 可能推进 0 个字符（需要至少 30ms 才推进第一个）
}

/// AC01: Instant 速度 → push 后 update(0) 立即完成。
#[test]
fn ac01_instant_completes_immediately() {
    let mut dc = DialogueController::new(TypewriterSpeed::Instant);
    dc.push(line("A", "Hello"));

    let state = dc.update(0);
    assert_eq!(state, DialogueState::WaitingForAdvance);
    assert_eq!(dc.current_visible_chars(), 5); // "Hello" = 5 chars
}

// ========================================================================
// AC02 — 打字机进行中点击 = 跳过动画（非推进）
// ========================================================================

/// AC02: Typewriting 状态下 on_click → skip → WaitingForAdvance，返回 None。
#[test]
fn ac02_click_during_typewriting_skips() {
    let mut dc = DialogueController::new(TypewriterSpeed::Slow); // 50ms/char
    dc.push(line("S", "Long text that takes time to display"));

    // 确认在 Typewriting 状态
    assert_eq!(dc.state(), DialogueState::Typewriting);

    // 模拟部分推进
    dc.update(50_000_000); // 推进 1 个字符
    assert!(dc.current_visible_chars() > 0);
    assert!(dc.current_visible_chars() < dc.current_text().chars().count());

    // 点击 → 跳过
    let action = dc.on_click();
    assert_eq!(action, DialogueAction::NoOp);
    assert_eq!(dc.state(), DialogueState::WaitingForAdvance);
    // 所有文本应可见
    assert_eq!(
        dc.current_visible_chars(),
        dc.current_text().chars().count()
    );
}

/// AC02: 未开始打字机直接点击也正确跳过。
#[test]
fn ac02_click_before_any_update_skips() {
    let mut dc = DialogueController::new(TypewriterSpeed::Slow);
    dc.push(line("S", "Skip me"));

    // 不调用 update，直接点击
    let action = dc.on_click();
    assert_eq!(action, DialogueAction::NoOp);
    assert_eq!(dc.state(), DialogueState::WaitingForAdvance);
    assert_eq!(dc.current_visible_chars(), 7); // "Skip me" = 7 chars
}

/// AC02: 已完成打字机的情况下跳过再点击 = Advance。
#[test]
fn ac02_click_after_skip_then_click_advances() {
    let mut dc = DialogueController::new(TypewriterSpeed::Slow);
    dc.push(line("S", "Hi"));

    // 点击跳过
    dc.on_click(); // → WaitingForAdvance
    assert_eq!(dc.state(), DialogueState::WaitingForAdvance);

    // 再次点击 → 推进（队列为空）
    let action = dc.on_click();
    assert_eq!(action, DialogueAction::Advance);
    assert_eq!(dc.state(), DialogueState::Completed);
}

// ========================================================================
// AC03 — 打字机完成后点击 = 推进到下一句
// ========================================================================

/// AC03: 打字机自然完成后点击 → Advance。
#[test]
fn ac03_complete_then_click_advances() {
    let mut dc = DialogueController::new(TypewriterSpeed::Normal);
    dc.push(line("S", "Hi"));

    // 推进到完成
    dc.update(60_000_000); // 2 × 30ms = 60ms，推进 2 个字符
    assert_eq!(dc.state(), DialogueState::WaitingForAdvance);
    assert_eq!(dc.current_visible_chars(), 2);

    // 点击推进
    let action = dc.on_click();
    assert_eq!(action, DialogueAction::Advance);
    assert_eq!(dc.state(), DialogueState::Completed);
}

/// AC03: Instant 速度 → 无需等待即可点击推进。
#[test]
fn ac03_instant_then_click_advances() {
    let mut dc = DialogueController::new(TypewriterSpeed::Instant);
    dc.push(line("S", "Hi"));

    // Instant 速度，update(0) 立即完成
    dc.update(0);
    assert_eq!(dc.state(), DialogueState::WaitingForAdvance);

    let action = dc.on_click();
    assert_eq!(action, DialogueAction::Advance);
}

// ========================================================================
// AC04 — 对话队列正确串行
// ========================================================================

/// AC04: push(A) → push(B) → 完成A推进 → 自动开始B → 完成B推进。
#[test]
fn ac04_queue_serial_correct() {
    let mut dc = DialogueController::new(TypewriterSpeed::Instant);

    // 推入两句对话
    dc.push(line("小百合", "第一句"));
    dc.push(line("直人", "第二句"));

    // A 在 Typewriting
    assert_eq!(dc.state(), DialogueState::Typewriting);
    assert_eq!(dc.current_speaker(), "小百合");

    // 完成 A
    dc.update(0);
    assert_eq!(dc.state(), DialogueState::WaitingForAdvance);

    // 点击推进 A → 自动开始 B
    let action = dc.on_click();
    assert_eq!(action, DialogueAction::NoOp, "队列有 B，不应要求 VM 推进");
    assert_eq!(dc.state(), DialogueState::Typewriting);
    assert_eq!(dc.current_speaker(), "直人");
    assert_eq!(dc.current_text(), "第二句");

    // 完成 B
    dc.update(0);
    assert_eq!(dc.state(), DialogueState::WaitingForAdvance);

    // 点击推进 B → 队列空 → Advance
    let action = dc.on_click();
    assert_eq!(action, DialogueAction::Advance);
    assert_eq!(dc.state(), DialogueState::Completed);
}

/// AC04: 3 句连续推进正确。
#[test]
fn ac04_three_line_queue() {
    let mut dc = DialogueController::new(TypewriterSpeed::Instant);
    dc.push(line("A", "1"));
    dc.push(line("B", "2"));
    dc.push(line("C", "3"));

    // 完成第1句
    dc.update(0);
    dc.on_click(); // 开始第2句
    assert_eq!(dc.current_text(), "2");

    // 完成第2句
    dc.update(0);
    dc.on_click(); // 开始第3句
    assert_eq!(dc.current_text(), "3");

    // 完成第3句
    dc.update(0);
    let action = dc.on_click(); // 队列空
    assert_eq!(action, DialogueAction::Advance);
}

/// AC04: 只有在 Typewriting 状态下 push 才会排队。
#[test]
fn ac04_push_during_typewriting_queues() {
    let mut dc = DialogueController::new(TypewriterSpeed::Slow);
    dc.push(line("A", "First"));

    // 在打字机进行中 push 第二句 → 应排队
    dc.push(line("B", "Second"));
    assert_eq!(dc.queue_len(), 1);
    assert_eq!(dc.current_text(), "First"); // 当前仍在显示第一句
}

// ========================================================================
// AC05 — 空文本/空说话者不 panic
// ========================================================================

/// AC05: 空文本（speaker="" text=""）push 不 panic。
#[test]
fn ac05_empty_text_no_panic() {
    let mut dc = DialogueController::new(TypewriterSpeed::Normal);
    dc.push(line("", ""));
    // 空文本在 Typewriter::reset("") 时即标记完成
    dc.update(0);
    assert_eq!(dc.state(), DialogueState::WaitingForAdvance);
    assert_eq!(dc.current_visible_chars(), 0);

    let action = dc.on_click();
    assert_eq!(action, DialogueAction::Advance);
}

/// AC05: 空说话者 + 有文本正常。
#[test]
fn ac05_empty_speaker_with_text() {
    let mut dc = DialogueController::new(TypewriterSpeed::Normal);
    dc.push(line("", "旁白文本"));
    assert_eq!(dc.state(), DialogueState::Typewriting);
    assert_eq!(dc.current_speaker(), "");
    assert_eq!(dc.current_text(), "旁白文本");
}

/// AC05: 正常说话者 + 空文本不 panic。
#[test]
fn ac05_speaker_with_empty_text() {
    let mut dc = DialogueController::new(TypewriterSpeed::Normal);
    dc.push(line("小百合", ""));
    dc.update(0);
    // 空文本立即完成
    assert_eq!(dc.state(), DialogueState::WaitingForAdvance);
    dc.on_click();
    // 不 panic
}

// ========================================================================
// 额外边界测试
// ========================================================================

/// reset() 后状态正确回到 Idle。
#[test]
fn test_reset_clears_everything() {
    let mut dc = DialogueController::new(TypewriterSpeed::Normal);
    dc.push(line("A", "Text"));
    dc.push(line("B", "Queued"));
    dc.update(100_000_000);

    dc.reset();

    assert_eq!(dc.state(), DialogueState::Idle);
    assert_eq!(dc.queue_len(), 0);
    assert_eq!(dc.current_speaker(), "");
    assert_eq!(dc.current_text(), "");
}

/// Completed 状态下 push 自动开始新行。
#[test]
fn test_push_from_completed_starts_immediately() {
    let mut dc = DialogueController::new(TypewriterSpeed::Instant);
    dc.push(line("A", "First"));
    dc.update(0);
    dc.on_click(); // → Completed

    assert_eq!(dc.state(), DialogueState::Completed);

    // 从 Completed push → 立即开始
    dc.push(line("B", "Second"));
    assert_eq!(dc.state(), DialogueState::Typewriting);
    assert_eq!(dc.current_text(), "Second");
}

/// Idle 状态下 on_click 返回 None 且不 panic。
#[test]
fn test_click_when_idle_does_nothing() {
    let mut dc = DialogueController::new(TypewriterSpeed::Normal);
    assert_eq!(dc.state(), DialogueState::Idle);

    let action = dc.on_click();
    assert_eq!(action, DialogueAction::NoOp);
    assert_eq!(dc.state(), DialogueState::Idle);
}

/// Completed 状态下 on_click 返回 None。
#[test]
fn test_click_when_completed_does_nothing() {
    let mut dc = DialogueController::new(TypewriterSpeed::Instant);
    dc.push(line("A", "Hi"));
    dc.update(0);
    dc.on_click(); // → Completed

    // 再次点击不应改变状态
    let action = dc.on_click();
    assert_eq!(action, DialogueAction::NoOp);
    assert_eq!(dc.state(), DialogueState::Completed);
}

/// set_speed 生效。
#[test]
fn test_set_speed_takes_effect() {
    let mut dc = DialogueController::new(TypewriterSpeed::Slow);
    assert_eq!(dc.speed(), TypewriterSpeed::Slow);

    dc.set_speed(TypewriterSpeed::Fast);
    assert_eq!(dc.speed(), TypewriterSpeed::Fast);
}

/// CJK 文本字符计数正确（char 级别）。
#[test]
fn test_cjk_visible_chars() {
    let mut dc = DialogueController::new(TypewriterSpeed::Instant);
    dc.push(line("S", "你好世界！"));
    dc.update(0);
    assert_eq!(dc.current_visible_chars(), 5); // 你(1)好(2)世(3)界(4)！(5)
}

