//! Traits by which shaders and shader pipelines are told apart.

use vstd::prelude::*;

verus! {

/// A trait representing a shader.
pub trait Shader {

}

/// A trait representing a vertex shader.
pub trait VertexShader: Shader {

}

/// A trait representing a fragment shader.
pub trait FragmentShader: Shader {

}

/// A trait representing a geometry shader.
pub trait GeometryShader: Shader {

}

/// A trait representing a tessellation control shader.
pub trait TessControlShader: Shader {

}

/// A trait representing a tessellation evaluation shader.
pub trait TessEvalShader: Shader {

}

/// A trait representing a compute shader.
pub trait ComputeShader: Shader {

}

/// A trait representing the description of the resources that a shader
/// pipeline is bound to.
pub trait ShaderInterfaceDesc {

}

/// A trait representing a collection of shaders (of the same type) for the
/// whole graphics pipeline.
pub trait GraphicsShaderPipeline {
    /// The type of the vertex shader.
    type Vertex: VertexShader;

    /// The type of the fragment shader.
    type Fragment: FragmentShader;

    /// The type of the geometry shader.
    type Geometry: GeometryShader;

    /// The type of the tessellation control shader.
    type TessControl: TessControlShader;

    /// The type of the tessellation evaluation shader.
    type TessEval: TessEvalShader;

    fn vertex_shader(&self) -> &Self::Vertex;

    fn fragment_shader(&self) -> &Self::Fragment;

    fn geometry_shader(&self) -> Option<&Self::Geometry>;

    fn tess_control_shader(&self) -> Option<&Self::TessControl>;

    fn tess_eval_shader(&self) -> Option<&Self::TessEval>;

    fn is_compatible_with<D: ShaderInterfaceDesc>(&self, interface: &D) -> bool;
}

/// A trait representing the shader of a compute pipeline.
pub trait ComputeShaderPipeline {
    /// The type of the compute shader.
    type Compute: ComputeShader;

    fn compute_shader(&self) -> &Self::Compute;

    fn is_compatible_with<D: ShaderInterfaceDesc>(&self, interface: &D) -> bool;
}

} // verus!
