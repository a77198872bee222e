// Draws a grid of cells: one instance of six vertices for each cell.

#include <metal_stdlib>
using namespace metal;

struct Uniforms {
    uint grid_cols;
    uint grid_rows;
    float cell_width;
    float cell_height;
    float atlas_width;
    float atlas_height;
    float viewport_width;
    float viewport_height;
    float x_origin;
    float y_origin;
};

struct Cell {
    uint glyph_index;
    packed_float4 fg_color;
    packed_float4 bg_color;
    uint flags;
    float atlas_uv_x;
    float atlas_uv_y;
    float atlas_uv_w;
    float atlas_uv_h;
};

struct Vertex {
    float4 position [[position]];
    float4 fg_color;
    float4 bg_color;
    float2 uv;
};

vertex Vertex cell_vertex(uint vertex_id [[vertex_id]],
                          uint instance_id [[instance_id]],
                          const device Cell *cells [[buffer(0)]],
                          constant Uniforms &uniforms [[buffer(1)]]) {
    const float2 corners[6] = {
        float2(0, 0), float2(1, 0), float2(0, 1),
        float2(1, 0), float2(1, 1), float2(0, 1),
    };
    float2 corner = corners[vertex_id];
    Cell cell = cells[instance_id];
    float2 at = float2(instance_id % uniforms.grid_cols, instance_id / uniforms.grid_cols);
    float2 size = float2(uniforms.cell_width, uniforms.cell_height);
    float2 point = float2(uniforms.x_origin, uniforms.y_origin) + (at + corner) * size;
    float2 viewport = float2(uniforms.viewport_width, uniforms.viewport_height);
    float2 ndc = point / viewport * 2.0 - 1.0;

    Vertex out;
    out.position = float4(ndc.x, -ndc.y, 0.0, 1.0);
    out.fg_color = float4(cell.fg_color);
    out.bg_color = float4(cell.bg_color);
    out.uv = float2(cell.atlas_uv_x, cell.atlas_uv_y)
        + corner * float2(cell.atlas_uv_w, cell.atlas_uv_h);
    return out;
}

fragment float4 cell_fragment(Vertex in [[stage_in]],
                              texture2d<float> atlas [[texture(0)]]) {
    constexpr sampler nearest(filter::nearest);
    float coverage = atlas.sample(nearest, in.uv).r;
    return mix(in.bg_color, in.fg_color, coverage);
}
