use serde_json::Value;
use toolmind::codec::{parse, to_value};
use toolmind::command::Platform;
use toolmind::gui::{
    clamp_pos, do_mouse_click, do_mouse_move, do_type_text, gui_armed, gui_automation_arm,
    gui_automation_disarm, gui_automation_status, gui_mouse_click, gui_mouse_clicked,
    gui_mouse_move, gui_mouse_moved, gui_screen_snapshot, gui_type_text, gui_typed, has_screen,
    require_armed, screen_text_summary, send_inputs, session_armed, session_text, snapshot_name,
    user_command_disarm, Button, Click, MouseStep, Position, Rgb, ScreenBounds,
    Snapshot,
};
use toolmind::json::Json;

const ARMED: &str = r#"{"armed":true,"armed_at_ms":5}"#;
const UNSUPPORTED: &str = "Automação GUI (rato/teclado/captura) só está implementada no Windows.";
const UNARMED: &str =
    "Sessão GUI não armada. Chame gui_automation_arm primeiro (aprovação única no terminal).";
const W: Platform = Platform::Windows;

fn json(s: &str) -> Json {
    parse(s).unwrap()
}

fn value(s: &str) -> Value {
    serde_json::from_str(s).unwrap()
}

fn error_of<T>(r: Result<T, Json>) -> String {
    match r {
        Ok(_) => panic!("accepted"),
        Err(e) => to_value(&e)["error"].as_str().unwrap().to_string(),
    }
}

#[test]
fn a_session_that_was_armed_is_armed() {
    let t = session_text(99);
    assert!(session_armed(Some(&t)));
    assert_eq!(value(&t), value(r#"{"armed":true,"armed_at_ms":99}"#));
    for raw in [None, Some(""), Some("{}"), Some(r#"{"armed":false}"#), Some(r#"{"armed":"true"}"#), Some("[true]")] {
        assert!(!session_armed(raw));
    }
}

#[test]
fn nothing_is_automated_unarmed_or_elsewhere() {
    let input = json(r#"{"x":1,"y":2,"text":"a"}"#);
    for p in [Platform::MacOs, Platform::OtherUnix, Platform::Unsupported] {
        assert_eq!(error_of(require_armed(p, Some(ARMED))), UNSUPPORTED);
        assert_eq!(error_of(gui_mouse_move(p, Some(ARMED), &input)), UNSUPPORTED);
        assert_eq!(error_of(gui_mouse_click(p, Some(ARMED), &input)), UNSUPPORTED);
        assert_eq!(error_of(gui_type_text(p, Some(ARMED), &input)), UNSUPPORTED);
    }
    assert_eq!(error_of(require_armed(W, None)), UNARMED);
    assert_eq!(error_of(gui_mouse_move(W, None, &input)), UNARMED);
    assert_eq!(error_of(gui_mouse_click(W, Some("{}"), &input)), UNARMED);
    assert_eq!(error_of(gui_type_text(W, Some("x"), &input)), UNARMED);
    assert!(require_armed(W, Some(ARMED)).is_ok());
}

#[test]
fn arming_asks_the_user_once() {
    assert!(gui_automation_arm(W, None).is_none());
    let already = to_value(&gui_automation_arm(W, Some(ARMED)).unwrap());
    assert_eq!(
        already,
        value(r#"{"status":"ok","already_armed":true,"note":"Sessão GUI já estava armada; não é necessário aprovar de novo."}"#)
    );
    assert_eq!(to_value(&gui_automation_arm(Platform::MacOs, None).unwrap())["error"], UNSUPPORTED);
    let e = || Err("x".to_string());
    assert_eq!(to_value(&gui_armed(false, &Ok(()), &Ok(())))["error"], "Autorização recusada no terminal.");
    assert_eq!(to_value(&gui_armed(true, &e(), &Ok(())))["error"], "x");
    assert_eq!(to_value(&gui_armed(true, &Ok(()), &e()))["error"], "x");
    assert_eq!(to_value(&gui_armed(true, &Ok(()), &Ok(())))["armed"], true);
}

#[test]
fn disarming_is_reported() {
    assert_eq!(
        to_value(&user_command_disarm(W)),
        value(r#"{"status":"ok","disarmed":true,"note":"Sessão GUI revogada pelo administrador (prompt)."}"#)
    );
    assert_eq!(
        to_value(&user_command_disarm(Platform::OtherUnix)),
        value(r#"{"status":"ok","disarmed":false,"note":"Sem sessão GUI neste SO."}"#)
    );
    assert_eq!(to_value(&gui_automation_disarm(W, Some(ARMED)))["was_armed"], true);
    assert_eq!(to_value(&gui_automation_disarm(W, None))["was_armed"], false);
    assert_eq!(to_value(&gui_automation_disarm(Platform::MacOs, None))["error"], UNSUPPORTED);
}

#[test]
fn the_session_is_described() {
    assert_eq!(
        to_value(&gui_automation_status(W, "windows", Some(ARMED))),
        value(r#"{"status":"ok","armed":true,"armed_at_ms":5,"platform":"windows"}"#)
    );
    assert_eq!(
        to_value(&gui_automation_status(W, "windows", None)),
        value(r#"{"status":"ok","armed":false,"armed_at_ms":null,"platform":"windows"}"#)
    );
    assert_eq!(
        to_value(&gui_automation_status(Platform::OtherUnix, "linux", None)),
        value(r#"{"status":"ok","armed":false,"platform":"linux"}"#)
    );
}

#[test]
fn a_picture_is_described() {
    assert_eq!(snapshot_name(123), "snap_123.png");
    let corner = Rgb { red: 0, green: 128, blue: 255 };
    assert_eq!(corner.words(), "rgb(0, 128, 255)");
    let summary = screen_text_summary(1920, 1080, "Olá \"mundo\"", ".toolmind/a.png", corner);
    assert_eq!(
        summary,
        "Janela em foco: \"Olá 'mundo'\"\nResolução da captura: 1920×1080\nCor no canto superior esquerdo: rgb(0, 128, 255)\nFicheiro PNG: .toolmind/a.png\nConteúdo visual detalhado não é inferido pelo host (sem OCR). Use o ficheiro ou um cliente com visão."
    );
    let s = Snapshot {
        path: "p".to_string(),
        width: 2,
        height: 3,
        title: "t".to_string(),
        rect: Some((-1, 2, 3, 4)),
        corner,
    };
    let r = to_value(&gui_screen_snapshot(&Ok(s)));
    assert_eq!(r["foreground_rect"], value("[-1,2,3,4]"));
    assert_eq!((r["width"].as_u64(), r["height"].as_u64()), (Some(2), Some(3)));
    assert_eq!(r["textual_summary"], screen_text_summary(2, 3, "t", "p", corner));
    assert_eq!(r["image_path"], "p");
    assert_eq!(to_value(&gui_screen_snapshot(&Err("nenhum ecrã".to_string())))["error"], "nenhum ecrã");
}

#[test]
fn the_pointer_stays_on_the_screens() {
    let b = ScreenBounds { x: -100, y: 0, width: 300, height: 200 };
    assert!(has_screen(b));
    assert_eq!(clamp_pos(0, 0, b), (0, 0));
    assert_eq!(clamp_pos(-500, 500, b), (-100, 199));
    assert_eq!(clamp_pos(500, -5, b), (199, 0));
    assert_eq!(do_mouse_move(Position { x: 10, y: 20 }, b), (10, 20));
    assert_eq!(do_mouse_move(Position { x: 0x1_0000_0005, y: -1 }, b), (5, 0));
    assert!(!has_screen(ScreenBounds { x: 0, y: 0, width: 0, height: 5 }));
    assert!(!has_screen(ScreenBounds { x: 0, y: 0, width: 5, height: i32::MIN }));
    let wide = ScreenBounds { x: 5, y: 0, width: i32::MAX, height: 1 };
    assert_eq!(clamp_pos(i32::MAX, 0, wide), (i32::MAX, 0));
}

#[test]
fn the_pointer_is_moved() {
    let p = gui_mouse_move(W, Some(ARMED), &json(r#"{"x":-3,"y":4}"#)).ok().unwrap();
    assert!(p == Position { x: -3, y: 4 });
    assert_eq!(
        to_value(&gui_mouse_moved(p, &Ok(()))),
        value(r#"{"status":"ok","x":-3,"y":4,"note":"Cursor movido (coordenadas absolutas no virtual desktop)."}"#)
    );
    assert_eq!(to_value(&gui_mouse_moved(p, &Err("e".to_string())))["error"], "e");
    assert_eq!(
        error_of(gui_mouse_move(W, Some(ARMED), &json("{}"))),
        "x obrigatório (inteiro, coordenada de ecrã)"
    );
    assert_eq!(
        error_of(gui_mouse_move(W, Some(ARMED), &json(r#"{"x":1,"y":1.5}"#))),
        "y obrigatório (inteiro, coordenada de ecrã)"
    );
}

#[test]
fn buttons_are_clicked() {
    let c = gui_mouse_click(W, Some(ARMED), &json("{}")).ok().unwrap();
    assert!(c == Click { button: Button::Left, double: false });
    assert_eq!(do_mouse_click(c), [MouseStep::Down(Button::Left), MouseStep::Up(Button::Left)]);
    let c = gui_mouse_click(W, Some(ARMED), &json(r#"{"button":"right","double":true}"#)).ok().unwrap();
    assert_eq!(
        do_mouse_click(c),
        [
            MouseStep::Down(Button::Right),
            MouseStep::Up(Button::Right),
            MouseStep::PauseMs(45),
            MouseStep::Down(Button::Right),
            MouseStep::Up(Button::Right)
        ]
    );
    assert_eq!(to_value(&gui_mouse_clicked(c, &Ok(()))), value(r#"{"status":"ok","button":"right","double":true}"#));
    let m = gui_mouse_click(W, Some(ARMED), &json(r#"{"button":"middle"}"#)).ok().unwrap();
    assert_eq!(to_value(&gui_mouse_clicked(m, &Err("e".to_string())))["error"], "e");
    assert_eq!(
        error_of(gui_mouse_click(W, Some(ARMED), &json(r#"{"button":"x"}"#))),
        "button deve ser left, right ou middle"
    );
    assert_eq!(send_inputs(2, 2), Ok(()));
    assert_eq!(send_inputs(1, 2), Err("SendInput incompleto: 1/2".to_string()));
}

#[test]
fn texts_are_typed_as_code_units() {
    for s in ["", "abc", "olá", "😀", "a\u{10ffff}\u{ffff}\u{10000}z"] {
        assert_eq!(do_type_text(s), s.encode_utf16().collect::<Vec<_>>());
    }
    let t = gui_type_text(W, Some(ARMED), &json(r#"{"text":"a😀"}"#)).ok().unwrap();
    assert_eq!(
        to_value(&gui_typed(&t, &Ok(()))),
        value(r#"{"status":"ok","chars_utf16":3,"note":"Texto enviado como Unicode para a janela em foco."}"#)
    );
    assert_eq!(to_value(&gui_typed(&t, &Err("e".to_string())))["error"], "e");
    assert_eq!(error_of(gui_type_text(W, Some(ARMED), &json("{}"))), "text obrigatório (UTF-8)");
    assert_eq!(error_of(gui_type_text(W, Some(ARMED), &json(r#"{"text":""}"#))), "text vazio");
    let long = format!(r#"{{"text":"{}"}}"#, "ç".repeat(4001));
    assert_eq!(
        error_of(gui_type_text(W, Some(ARMED), &json(&long))),
        "text demasiado longo (máx. 8000 bytes UTF-8)"
    );
    let fits = format!(r#"{{"text":"{}"}}"#, "ç".repeat(4000));
    assert!(gui_type_text(W, Some(ARMED), &json(&fits)).is_ok());
}
