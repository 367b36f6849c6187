//! Typewriter state machine scenarios.
use asterism::typewriter::{Typewriter, TypewriterSpeed};

/// 辅助函数：毫秒换算为纳秒
fn ms(ms: u64) -> u64 {
    ms * 1_000_000
}

// ========================================================================
// AC01 — 初始状态
// ========================================================================

/// AC01: Typewriter::new(Normal) 初始状态正确。
/// - is_complete == true（空文本已完成）
/// - visible_chars == 0
/// - total_chars == 0
#[test]
fn ac01_initial_state() {
    let tw = Typewriter::new(TypewriterSpeed::Normal);
    assert!(tw.is_complete(), "空文本默认已完成");
    assert_eq!(tw.visible_chars(), 0);
    assert_eq!(tw.total_chars(), 0);
    assert!(!tw.is_skipped());
}

/// AC01: reset 后状态正确。
#[test]
fn ac01_reset_initial_state() {
    let mut tw = Typewriter::new(TypewriterSpeed::Normal);
    tw.reset("今天天气真好啊。"); // 8 个字符
    assert!(!tw.is_complete(), "reset 后应为未完成");
    assert_eq!(tw.visible_chars(), 0);
    assert_eq!(tw.total_chars(), 8);
    assert!(!tw.is_skipped());
}

// ========================================================================
// AC02 — 经过足够时间后文本全部显示
// ========================================================================

/// AC02: 10 字符 Normal(30ms/char) → 模拟 300ms → is_complete=true。
#[test]
fn ac02_progress_to_completion() {
    let mut tw = Typewriter::new(TypewriterSpeed::Normal);
    tw.reset("1234567890"); // 10 个 ASCII 字符

    // 模拟 300ms 时间推进（10 × 30ms = 300ms）
    let changed = tw.update(ms(300));
    assert!(changed, "300ms 推进应产生变化");
    assert!(tw.is_complete(), "300ms 后应完成");
    assert_eq!(tw.visible_chars(), 10);
}

/// AC02: 逐步推进，每次一个字符。
#[test]
fn ac02_step_by_step() {
    let mut tw = Typewriter::new(TypewriterSpeed::Normal);
    tw.reset("ABC"); // 3 个字符

    // 第 1 个字符：30ms
    assert!(tw.update(ms(30)));
    assert_eq!(tw.visible_chars(), 1);
    assert!(!tw.is_complete());

    // 30ms 不够推进下一个（累积仅 0ms after 上一次推进）
    assert!(!tw.update(ms(15)));
    assert_eq!(tw.visible_chars(), 1);

    // 再 15ms 凑够 30ms
    assert!(tw.update(ms(15)));
    assert_eq!(tw.visible_chars(), 2);

    // 第 3 个字符
    assert!(tw.update(ms(30)));
    assert_eq!(tw.visible_chars(), 3);
    assert!(tw.is_complete());
}

/// AC02: 大帧间隔一次推进多个字符。
#[test]
fn ac02_bulk_advance_in_one_frame() {
    let mut tw = Typewriter::new(TypewriterSpeed::Normal);
    tw.reset("Hello"); // 5 个字符

    // 150ms = 5 × 30ms，一帧内全部推进
    assert!(tw.update(ms(150)));
    assert_eq!(tw.visible_chars(), 5);
    assert!(tw.is_complete());
}

// ========================================================================
// AC03 — skip() 后文本立即全部显示
// ========================================================================

/// AC03: skip() 后立即完成，visible_chars == total_chars。
#[test]
fn ac03_skip_immediate() {
    let mut tw = Typewriter::new(TypewriterSpeed::Normal);
    tw.reset("这是一段很长的文本用来测试跳过功能。"); // 17 字符

    // 先推进几个字符
    tw.update(ms(60)); // 推进 2 个字符（30ms × 2）
    assert!(tw.visible_chars() > 0);
    assert!(!tw.is_complete());

    // 跳过
    tw.skip();
    assert!(tw.is_complete(), "skip 后应完成");
    assert!(tw.is_skipped(), "skip 后 is_skipped 应为 true");
    assert_eq!(tw.visible_chars(), 18, "visible_chars 应等于 total_chars");
}

/// AC03: 未开始即 skip 也能正确完成。
#[test]
fn ac03_skip_before_start() {
    let mut tw = Typewriter::new(TypewriterSpeed::Slow);
    tw.reset("测试文本");

    // 不调用 update，直接 skip
    tw.skip();
    assert!(tw.is_complete());
    assert!(tw.is_skipped());
    assert_eq!(tw.visible_chars(), 4);
}

/// AC03: 完成后再次 skip 幂等。
#[test]
fn ac03_skip_idempotent() {
    let mut tw = Typewriter::new(TypewriterSpeed::Normal);
    tw.reset("AB");
    tw.update(ms(60)); // 完成
    assert!(tw.is_complete());

    // 已完成但未被显式标记为 skipped
    tw.skip();
    assert!(tw.is_complete());
    assert!(tw.is_skipped());

    // 再次 skip 不 panic，状态不变
    tw.skip();
    assert!(tw.is_complete());
}

// ========================================================================
// AC04 — reset() 后状态正确重置
// ========================================================================

/// AC04: 完成后 reset 新文本，状态正确重置。
#[test]
fn ac04_reset_after_completion() {
    let mut tw = Typewriter::new(TypewriterSpeed::Normal);
    tw.reset("旧文本旧文本");
    tw.update(ms(500)); // 完成
    assert!(tw.is_complete());

    // 重置为新文本
    tw.reset("新文本"); // 3 个字符
    assert!(!tw.is_complete(), "reset 后 is_complete 应为 false");
    assert_eq!(tw.visible_chars(), 0);
    assert_eq!(tw.total_chars(), 3);
    assert!(!tw.is_skipped(), "reset 后 is_skipped 应为 false");
}

/// AC04: reset 到空文本应立即完成。
#[test]
fn ac04_reset_to_empty() {
    let mut tw = Typewriter::new(TypewriterSpeed::Normal);
    tw.reset("有文本");
    assert!(!tw.is_complete());

    tw.reset("");
    assert!(tw.is_complete(), "空文本应直接完成");
    assert_eq!(tw.visible_chars(), 0);
    assert_eq!(tw.total_chars(), 0);
}

// ========================================================================
// AC05 — 不同速度档位差异
// ========================================================================

/// AC05: 相同时间内 Slow > Normal > Fast 推进的字符数递减。
#[test]
fn ac05_speed_difference() {
    let test_text = "12345678901234567890"; // 20 个字符

    // Slow: 50ms/char → 300ms 推进 6 个字符
    let mut slow_tw = Typewriter::new(TypewriterSpeed::Slow);
    slow_tw.reset(test_text);
    slow_tw.update(ms(300));
    let slow_visible = slow_tw.visible_chars();

    // Normal: 30ms/char → 300ms 推进 10 个字符
    let mut normal_tw = Typewriter::new(TypewriterSpeed::Normal);
    normal_tw.reset(test_text);
    normal_tw.update(ms(300));
    let normal_visible = normal_tw.visible_chars();

    // Fast: 15ms/char → 300ms 推进 20 个字符（全部完成）
    let mut fast_tw = Typewriter::new(TypewriterSpeed::Fast);
    fast_tw.reset(test_text);
    fast_tw.update(ms(300));
    let fast_visible = fast_tw.visible_chars();

    // Slow(6) < Normal(10) < Fast(20)
    assert!(
        slow_visible < normal_visible,
        "Slow({slow_visible}) 应少于 Normal({normal_visible})"
    );
    assert!(
        normal_visible < fast_visible,
        "Normal({normal_visible}) 应少于 Fast({fast_visible})"
    );
    assert_eq!(fast_visible, 20, "Fast 300ms 应完成全部 20 字符");
}

// ========================================================================
// 额外边界测试
// ========================================================================

/// Instant 速度：立即完成所有文本。
#[test]
fn test_instant_speed() {
    let mut tw = Typewriter::new(TypewriterSpeed::Instant);
    tw.reset("任意文本内容");

    let changed = tw.update(ms(0));
    assert!(changed);
    assert!(tw.is_complete());
    assert_eq!(tw.visible_chars(), 6);
}

/// Custom 速度正确。
#[test]
fn test_custom_speed() {
    let mut tw = Typewriter::new(TypewriterSpeed::Custom(100_000)); // 100ms/char
    tw.reset("ABC");

    // 100ms 推进 1 个字符
    assert!(tw.update(ms(100)));
    assert_eq!(tw.visible_chars(), 1);

    // 200ms more → 推进 2 个字符
    assert!(tw.update(ms(200)));
    assert_eq!(tw.visible_chars(), 3);
    assert!(tw.is_complete());
}

/// Custom(0) 等同于 Instant。
#[test]
fn test_custom_zero_equals_instant() {
    let mut tw = Typewriter::new(TypewriterSpeed::Custom(0));
    tw.reset("文本");
    tw.update(ms(0));
    assert!(tw.is_complete());
    assert_eq!(tw.visible_chars(), 2);
}

/// 空文本不 panic。
#[test]
fn test_zero_length_text() {
    let mut tw = Typewriter::new(TypewriterSpeed::Normal);
    tw.reset("");

    assert!(tw.is_complete());
    assert_eq!(tw.total_chars(), 0);
    assert_eq!(tw.visible_chars(), 0);

    // update 空文本不 panic
    assert!(!tw.update(ms(100)));
    assert!(tw.is_complete());
}

/// 完成后继续 update 不溢出。
#[test]
fn test_update_after_complete() {
    let mut tw = Typewriter::new(TypewriterSpeed::Normal);
    tw.reset("AB");
    tw.update(ms(60)); // 完成
    assert_eq!(tw.visible_chars(), 2);
    assert!(tw.is_complete());

    // 继续推进不 panic，不溢出
    assert!(!tw.update(ms(1000)));
    assert_eq!(tw.visible_chars(), 2, "完成后 visible_chars 不应变化");
}

/// CJK 文本字符计数正确。
#[test]
fn test_cjk_char_count() {
    let mut tw = Typewriter::new(TypewriterSpeed::Normal);

    // 中文
    tw.reset("今天天气真好啊");
    assert_eq!(tw.total_chars(), 7);

    // 日文（含假名）
    tw.reset("こんにちは世界");
    assert_eq!(tw.total_chars(), 7);

    // 韩文
    tw.reset("안녕하세요");
    assert_eq!(tw.total_chars(), 5);

    // 混合
    tw.reset("Hello世界123！");
    assert_eq!(tw.total_chars(), 11); // H(1)e(2)l(3)l(4)o(5)世(6)界(7)1(8)2(9)3(10)！(11) = 11
}

/// 多字节 emoji 字符计数（char 级别）。
#[test]
fn test_emoji_char_count() {
    let mut tw = Typewriter::new(TypewriterSpeed::Normal);
    tw.reset("Hello 😀🌍!");
    // H(1)e(2)l(3)l(4)o(5) (6)😀(7)🌍(8)!(9) = 9 chars
    assert_eq!(tw.total_chars(), 9);
}

/// set_speed 变更后生效。
#[test]
fn test_set_speed() {
    let mut tw = Typewriter::new(TypewriterSpeed::Slow);
    tw.reset("ABCDEFGHIJ"); // 10 字符

    // Slow: 50ms/char → 100ms 推进 2 字符
    tw.update(ms(100));
    assert_eq!(tw.visible_chars(), 2);

    // 切换到 Fast
    tw.set_speed(TypewriterSpeed::Fast);

    // Fast: 15ms/char → 150ms 推进 10 字符（剩余 8 个，150/15=10）
    tw.update(ms(150));
    assert_eq!(tw.visible_chars(), 10);
    assert!(tw.is_complete());
}

/// 正常完成（非 skip）is_skipped 为 false。
#[test]
fn test_normal_completion_not_skipped() {
    let mut tw = Typewriter::new(TypewriterSpeed::Fast);
    tw.reset("ABC");
    tw.update(ms(45)); // Fast 15ms × 3 = 45ms
    assert!(tw.is_complete());
    assert!(!tw.is_skipped(), "正常完成 is_skipped 应为 false");
}

/// update 返回值的正确性。
#[test]
fn test_update_return_value() {
    let mut tw = Typewriter::new(TypewriterSpeed::Normal);
    tw.reset("AB");

    // 推进了一个字符
    assert!(tw.update(ms(30)), "推进字符应返回 true");
    // 时间不够
    assert!(!tw.update(ms(10)), "时间不够应返回 false");
    // 正好推进第二个字符
    assert!(tw.update(ms(20)), "凑够 30ms 推进应返回 true");
    // 已完成
    assert!(!tw.update(ms(1000)), "已完成应返回 false");
}

/// visible_chars 不会超过 total_chars。
#[test]
fn test_visible_chars_bounded() {
    let mut tw = Typewriter::new(TypewriterSpeed::Normal);
    tw.reset("AB");

    // 大量时间推进
    tw.update(ms(10000));
    assert_eq!(tw.visible_chars(), 2);
    assert!(tw.is_complete());
    assert!(tw.visible_chars() <= tw.total_chars());
}


/// Splitting a stretch of time into two updates reveals the same characters.
#[test]
fn split_updates_reveal_the_same() {
    let mut whole = Typewriter::new(TypewriterSpeed::Normal);
    whole.reset("今天天气真好啊。");
    whole.update(ms(100));
    let mut split = Typewriter::new(TypewriterSpeed::Normal);
    split.reset("今天天气真好啊。");
    split.update(ms(45));
    split.update(ms(55));
    assert_eq!(whole.visible_chars(), 3);
    assert_eq!(split.visible_chars(), whole.visible_chars());
}
