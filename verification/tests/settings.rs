use green_vita::settings::{GameProfile, H264Profile, Locale, Settings};

#[test]
fn settings_start_from_their_defaults() {
    let settings = Settings::default();
    assert_eq!(settings.locale, Locale::EnUs);
    assert_eq!(settings.video_bitrate_kbps, 15_000);
    assert_eq!(settings.video_h264_profile, H264Profile::Baseline);
    assert_eq!((settings.video_decode_sleep_ms, settings.video_decode_queue_depth), (13, 6));
    assert_eq!((settings.remb_shock_drop_gap, settings.remb_shock_cooldown_secs), (10, 15));
    assert_eq!(settings.remb_shock_duration_ms, 100);
    assert!(settings.periodic_keyframe && !settings.unlock_video_fps);
    assert!(!settings.remb_auto_shock_enabled && !settings.swap_shoulders_and_triggers);
    assert!(settings.home_console_ip.is_none() && settings.game_profile("x").is_none());
}

#[test]
fn a_switch_changes_one_title_only() {
    let mut settings = Settings::default();
    settings.set_swap_shoulders_and_triggers("halo".to_string(), true);
    settings.set_front_touch_auxiliary_buttons("forza".to_string(), true);
    settings.set_rear_touch_enabled("halo".to_string(), false);
    assert_eq!(
        settings.game_profile("halo"),
        Some(&GameProfile {
            swap_shoulders_and_triggers: true,
            front_touch_auxiliary_buttons: false,
            rear_touch_enabled: false,
        })
    );
    assert_eq!(
        settings.game_profile("forza"),
        Some(&GameProfile { front_touch_auxiliary_buttons: true, ..GameProfile::default() })
    );
    assert!(settings.game_profile("hal").is_none());
    settings.set_swap_shoulders_and_triggers("halo".to_string(), false);
    assert!(!settings.game_profile("halo").unwrap().swap_shoulders_and_triggers);
    assert_eq!(settings.game_profiles.len(), 2);
    assert_eq!(settings.game_profiles.entry(0).0, "halo");
    assert_eq!(settings.game_profiles.entry(1).0, "forza");
    assert!(settings.game_profiles.entry(1).1.rear_touch_enabled);
}

#[test]
fn locales_have_code_market_and_label() {
    assert_eq!(Locale::ALL.len(), 19);
    assert_eq!(Locale::PtBr.as_str(), "pt-BR");
    assert_eq!(Locale::PtBr.market(), "BR");
    assert_eq!(Locale::RuRu.label(), "Русский");
    assert_eq!(Locale::ZhTw.label(), "中文（繁體）");
    for locale in Locale::ALL {
        assert!(locale.as_str().ends_with(locale.market()));
    }
}
