//! Scene selection: which generator a scene name picks, and where that
//! scene's configuration file lives.
use vstd::prelude::*;

verus! {

/// The scene generators.
#[derive(PartialEq, Eq, Structural, Debug, Clone, Copy)]
pub enum SceneKind {
    /// A hydrogen-like orbital density.
    Atom,
    /// A solid cube with a radial falloff.
    Cube,
}

/// A scene name no generator answers to.
#[derive(PartialEq, Eq, Structural, Debug, Clone, Copy)]
pub enum SceneError {
    UnknownScene,
}

/// The generator named `name`: `"atom"` or `"cube"`.
pub fn scene_kind(name: &str) -> (r: Result<SceneKind, SceneError>)
    ensures
        r == (if name@ == "atom"@ {
            Ok(SceneKind::Atom)
        } else if name@ == "cube"@ {
            Ok(SceneKind::Cube)
        } else {
            Err(SceneError::UnknownScene)
        }),
{
    let owned = name.to_owned();
    if owned == "atom".to_owned() {
        Ok(SceneKind::Atom)
    } else if owned == "cube".to_owned() {
        Ok(SceneKind::Cube)
    } else {
        Err(SceneError::UnknownScene)
    }
}

/// Path of the configuration of scene `name`, relative to the directory of
/// the scene selector: `src/scenes/{name}/{name}.yaml`.
pub fn scene_relative_path(name: &str) -> (r: String)
    ensures
        r@ == "src/scenes/"@ + name@ + "/"@ + name@ + ".yaml"@,
{
    let mut path = String::from_str("src/scenes/");
    path.append(name);
    path.append("/");
    path.append(name);
    path.append(".yaml");
    path
}

} // verus!
