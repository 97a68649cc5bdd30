use webgl_client::shader::{Shader, ShaderError};
use webgl_client::shader_controller::{ShaderController, ShaderType};

fn linked(program: u32) -> Shader {
    Shader::new(program, Ok(()), Ok(()), true, String::new()).unwrap()
}

#[test]
fn shader_new_links_with_empty_cache() {
    let s = linked(7);
    assert_eq!(s.get_program(), 7);
    assert_eq!(s.get_uniform_location(&b"uModel".to_vec()), None);
}

#[test]
fn shader_new_reports_vertex_compile_error() {
    let r = Shader::new(1, Err(String::from("bad vertex")), Ok(()), true, String::new());
    match r {
        Err(ShaderError::CompileError(log)) => assert_eq!(log, "bad vertex"),
        _ => panic!("expected a compile error"),
    }
}

#[test]
fn shader_new_reports_fragment_compile_error() {
    let r = Shader::new(1, Ok(()), Err(String::from("bad fragment")), true, String::new());
    match r {
        Err(ShaderError::CompileError(log)) => assert_eq!(log, "bad fragment"),
        _ => panic!("expected a compile error"),
    }
}

#[test]
fn shader_new_reports_link_error() {
    let r = Shader::new(1, Ok(()), Ok(()), false, String::from("undefined varying"));
    match r {
        Err(ShaderError::LinkError(log)) => assert_eq!(log, "undefined varying"),
        _ => panic!("expected a link error"),
    }
}

#[test]
fn uniform_location_is_resolved_at_most_once() {
    // the driver protocol: probe, consult the device only on a miss, store.
    let mut s = linked(3);
    let name = b"uViewProjection".to_vec();
    let mut device_lookups = 0u32;

    // first resolution: miss, one device lookup, store
    let loc = match s.get_uniform_location(&name) {
        Some(loc) => loc,
        None => {
            device_lookups += 1;
            let loc = 42; // what the device reported
            s.cache_uniform_location(name.clone(), loc);
            loc
        }
    };
    assert_eq!(loc, 42);
    assert_eq!(device_lookups, 1);

    // second resolution of the same name: a hit, no device lookup
    let loc2 = match s.get_uniform_location(&name) {
        Some(loc) => loc,
        None => {
            device_lookups += 1;
            0
        }
    };
    assert_eq!(loc2, 42);
    assert_eq!(device_lookups, 1);
}

#[test]
fn uniform_cache_keeps_other_names() {
    let mut s = linked(3);
    s.cache_uniform_location(b"uModel".to_vec(), 1);
    s.cache_uniform_location(b"uNormalsRotation".to_vec(), 2);
    assert_eq!(s.get_uniform_location(&b"uModel".to_vec()), Some(1));
    assert_eq!(s.get_uniform_location(&b"uNormalsRotation".to_vec()), Some(2));
    assert_eq!(s.get_uniform_location(&b"u_Colour".to_vec()), None);
}

#[test]
fn use_shader_is_idempotent() {
    // binding the same type twice issues exactly one underlying switch
    let mut c = ShaderController::new(Some(linked(1)), Some(linked(2)));
    // the basic shader starts out active
    assert!(!c.use_shader(ShaderType::BasicShader));
    let first = c.use_shader(ShaderType::Graph3dShader);
    let second = c.use_shader(ShaderType::Graph3dShader);
    assert!(first);
    assert!(!second);
}

#[test]
fn get_shader_reports_registration() {
    let c = ShaderController::new(Some(linked(1)), None);
    assert!(c.get_shader(&ShaderType::BasicShader).is_some());
    assert!(c.get_shader(&ShaderType::Graph3dShader).is_none());
    assert_eq!(c.get_shader(&ShaderType::BasicShader).unwrap().get_program(), 1);
}
