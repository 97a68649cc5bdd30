use webgl_client::entity::Entity;
use webgl_client::shader::Shader;
use webgl_client::shader_controller::ShaderType;
use webgl_client::WebGlClient;

const SCALE: i64 = 1_000_000;

fn linked(program: u32) -> Shader {
    Shader::new(program, Ok(()), Ok(()), true, String::new()).unwrap()
}

#[test]
fn render_draws_every_registered_entity() {
    // a mocked 100x100 canvas: every entity has a bound shader, so the
    // render pass emits one draw call per entity, each with its own static
    // index count.
    let mut client = WebGlClient::new(Some(linked(1)), Some(linked(2)));
    client.update(0, 100 * SCALE, 100 * SCALE).unwrap();
    let calls = client.render();
    assert_eq!(calls.len(), 2);

    assert_eq!(calls[0].shader_type, ShaderType::BasicShader);
    assert_eq!(calls[0].index_count, 6);
    assert!(calls[0].y_values.is_none());
    assert!(calls[0].normals.is_none());
    // the basic shader starts out active, so the first bind is a no-op
    assert!(!calls[0].program_switched);

    assert_eq!(calls[1].shader_type, ShaderType::Graph3dShader);
    assert_eq!(calls[1].index_count, 6 * 100 * 100);
    assert!(calls[1].program_switched);
    let y = calls[1].y_values.as_ref().unwrap();
    let normals = calls[1].normals.as_ref().unwrap();
    assert_eq!(y.len(), 101 * 101);
    assert_eq!(normals.len(), 3 * 101 * 101);

    // index counts match the entities' static index buffers
    for (call, entity) in calls.iter().zip(client.entities.iter()) {
        match entity {
            Entity::Quad(q) => assert_eq!(call.index_count, q.rect_index_array_length),
            Entity::Graph3d(g) => assert_eq!(call.index_count, g.rect_index_array_length),
        }
    }
}

#[test]
fn render_skips_entities_without_a_shader() {
    // the mesh's shader is not registered: its draw is silently skipped
    let mut client = WebGlClient::new(Some(linked(1)), None);
    client.update(0, 100 * SCALE, 100 * SCALE).unwrap();
    let calls = client.render();
    assert_eq!(calls.len(), 1);
    assert_eq!(calls[0].shader_type, ShaderType::BasicShader);
    assert_eq!(calls[0].index_count, 6);
}

#[test]
fn render_with_no_shaders_draws_nothing() {
    let mut client = WebGlClient::new(None, None);
    client.update(0, 100 * SCALE, 100 * SCALE).unwrap();
    let calls = client.render();
    assert!(calls.is_empty());
}

#[test]
fn repeated_binds_of_the_same_shader_never_switch() {
    // only the quad's shader is registered, so every frame binds the same
    // type: after the startup bind, no render ever switches programs again
    let mut client = WebGlClient::new(Some(linked(1)), None);
    client.update(0, 100 * SCALE, 100 * SCALE).unwrap();
    let first = client.render();
    let second = client.render();
    assert!(!first[0].program_switched);
    assert!(!second[0].program_switched);
}

#[test]
fn alternating_shaders_switch_every_frame() {
    let mut client = WebGlClient::new(Some(linked(1)), Some(linked(2)));
    client.update(0, 100 * SCALE, 100 * SCALE).unwrap();
    let first = client.render();
    assert!(first[1].program_switched);
    // the mesh's shader ends the frame active, so the quad's bind switches
    // back, and the mesh's bind switches again after the quad's draw
    let second = client.render();
    assert!(second[0].program_switched);
    assert!(second[1].program_switched);
}

#[test]
fn update_records_frame_state() {
    let mut client = WebGlClient::new(None, None);
    // the driver surface takes (time, height, width)
    let r = client.update(16 * SCALE, 600 * SCALE, 800 * SCALE);
    assert!(r.is_ok());
    assert_eq!(client.state.time, 16 * SCALE);
    assert_eq!(client.state.canvas_width, 800 * SCALE);
    assert_eq!(client.state.canvas_height, 600 * SCALE);
}

#[test]
fn draw_calls_carry_the_camera_rotation() {
    let mut client = WebGlClient::new(Some(linked(1)), Some(linked(2)));
    client.update(0, 100 * SCALE, 100 * SCALE).unwrap();
    webgl_client::app_state::update_mouse_down(&mut client.state, 10 * SCALE, 10 * SCALE, true);
    webgl_client::app_state::update_mouse_position(&mut client.state, 20 * SCALE, 10 * SCALE);
    let calls = client.render();
    assert_eq!(calls[1].camera_rotation_x, 2_800_000 + 314_159);
    assert_eq!(calls[1].camera_rotation_y, 800_000);
    assert_eq!(calls[1].position.x, 0);
    assert_eq!(calls[1].scale.x, SCALE);
}
