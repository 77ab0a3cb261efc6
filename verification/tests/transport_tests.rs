use openlogi::hook::{
    hook_action, hook_event, mouse_proc_action, EventDisposition, HookAction, HookError, HookSlot,
    HC_ACTION,
};
use openlogi::mouse_model::{highlighted, hotspot_highlighted, hover_update};
use openlogi::hook::{translate_event, MouseEvent, LLMHF_INJECTED, WHEEL_DELTA, WM_LBUTTONDOWN, WM_MOUSEHWHEEL, WM_MOUSEWHEEL, WM_XBUTTONUP};
use openlogi::buttons::ButtonId;
use openlogi::transport::{is_hidpp_long_collection, is_hidpp_node, is_long_only_collection, supports_short_long_hidpp};

#[test]
fn matches_both_usb_and_ble_hidpp_collections() {
    assert!(is_hidpp_long_collection(0xff00, 0x0002));
    assert!(is_hidpp_long_collection(0xff43, 0x0202));
    assert!(!is_hidpp_long_collection(0x0001, 0x0002));
    assert!(!is_hidpp_long_collection(0xff43, 0x0002));
}

#[test]
fn only_ble_collection_is_long_only() {
    assert!(is_long_only_collection(0xff43, 0x0202));
    assert!(!is_long_only_collection(0xff00, 0x0002));
    assert!(!is_long_only_collection(0x0001, 0x0002));
}

#[test]
fn nodes_need_the_logitech_vendor_id() {
    assert!(is_hidpp_node(0x046d, 0xff00, 0x0002));
    assert!(!is_hidpp_node(0x1234, 0xff00, 0x0002));
    assert_eq!(supports_short_long_hidpp(true), Some((false, true)));
    assert_eq!(supports_short_long_hidpp(false), Some((true, true)));
}

#[test]
fn translate_event_ignores_injected_mouse_input() {
    assert!(translate_event(WM_LBUTTONDOWN as usize, LLMHF_INJECTED, 0).is_none());
}

#[test]
fn wheel_forward_scrolls_up_like_other_platforms() {
    let Some(MouseEvent::Scroll { delta_x, delta_y }) =
        translate_event(WM_MOUSEWHEEL as usize, 0, 120u32 << 16)
    else {
        panic!("expected a scroll event");
    };
    let delta_x = f32::from(delta_x) / f32::from(WHEEL_DELTA);
    let delta_y = f32::from(delta_y) / f32::from(WHEEL_DELTA);
    assert!(delta_x.abs() < f32::EPSILON);
    assert!(delta_y > 0.0, "wheel-forward should scroll up, got {delta_y}");
}

#[test]
fn buttons_and_horizontal_wheel() {
    assert_eq!(
        translate_event(WM_LBUTTONDOWN as usize, 0, 0),
        Some(MouseEvent::Button { id: ButtonId::LeftClick, pressed: true })
    );
    assert_eq!(
        translate_event(WM_XBUTTONUP as usize, 0, 2 << 16),
        Some(MouseEvent::Button { id: ButtonId::Forward, pressed: false })
    );
    assert_eq!(translate_event(WM_XBUTTONUP as usize, 0, 3 << 16), None);
    assert_eq!(
        translate_event(WM_MOUSEHWHEEL as usize, 0, 0xff88_0000),
        Some(MouseEvent::Scroll { delta_x: -120, delta_y: 0 })
    );
    assert_eq!(translate_event(0x0200, 0, 0), None);
}

#[test]
fn hook_calls_and_dispositions() {
    assert!(hook_event(HC_ACTION + 1, WM_LBUTTONDOWN as usize, 0, 0).is_none());
    assert_eq!(
        hook_event(HC_ACTION, WM_LBUTTONDOWN as usize, 0, 0),
        Some(MouseEvent::Button { id: ButtonId::LeftClick, pressed: true })
    );
    assert_eq!(hook_action(Some(EventDisposition::Suppress)), HookAction::Suppress);
    assert_eq!(hook_action(Some(EventDisposition::PassThrough)), HookAction::CallNext);
    assert_eq!(hook_action(None), HookAction::CallNext);
}

#[test]
fn hotspot_hover_and_highlight() {
    assert_eq!(hover_update(None, ButtonId::Back, true), Some(ButtonId::Back));
    assert_eq!(hover_update(Some(ButtonId::Back), ButtonId::Back, false), None);
    assert_eq!(hover_update(Some(ButtonId::Forward), ButtonId::Back, false), Some(ButtonId::Forward));
    assert_eq!(highlighted(None, Some(ButtonId::DpiToggle)), Some(ButtonId::DpiToggle));
    assert_eq!(highlighted(Some(ButtonId::Back), Some(ButtonId::DpiToggle)), Some(ButtonId::Back));
    assert!(hotspot_highlighted(ButtonId::Back, None, Some(ButtonId::Back)));
    assert!(!hotspot_highlighted(ButtonId::Back, Some(ButtonId::Forward), None));
}

#[test]
fn hook_slot_refuses_a_second_hook_until_released() {
    let mut slot = HookSlot::new();
    assert!(!slot.installed);
    assert!(slot.claim().is_ok());
    assert!(slot.installed);
    match slot.claim() {
        Err(HookError::WindowsHook(m)) => {
            assert_eq!(m, "another Windows mouse hook is already installed")
        }
        Ok(()) => panic!("a second hook was accepted"),
    }
    assert!(slot.installed);
    slot.release();
    assert!(!slot.installed);
    assert!(slot.claim().is_ok());
}

#[test]
fn mouse_proc_swallows_only_what_the_callback_suppresses() {
    let suppress_buttons = |e: MouseEvent| match e {
        MouseEvent::Button { .. } => EventDisposition::Suppress,
        MouseEvent::Scroll { .. } => EventDisposition::PassThrough,
    };
    let click = WM_LBUTTONDOWN as usize;
    let wheel = WM_MOUSEWHEEL as usize;
    assert_eq!(mouse_proc_action(HC_ACTION, click, Some((0, 0)), Some(&suppress_buttons)), HookAction::Suppress);
    assert_eq!(
        mouse_proc_action(HC_ACTION, wheel, Some((0, 120 << 16)), Some(&suppress_buttons)),
        HookAction::CallNext
    );
    assert_eq!(mouse_proc_action(1, click, Some((0, 0)), Some(&suppress_buttons)), HookAction::CallNext);
    assert_eq!(mouse_proc_action(HC_ACTION, click, None, Some(&suppress_buttons)), HookAction::CallNext);
    assert_eq!(
        mouse_proc_action(HC_ACTION, click, Some((LLMHF_INJECTED, 0)), Some(&suppress_buttons)),
        HookAction::CallNext
    );
    let no_callback: Option<&fn(MouseEvent) -> EventDisposition> = None;
    assert_eq!(mouse_proc_action(HC_ACTION, click, Some((0, 0)), no_callback), HookAction::CallNext);
}
