//! Integer core of a Monte-Carlo path tracer: the layout of the finished RGB8
//! image handed to an image sink, and the control decisions of the path
//! integrator (bounce budget, miss, absorption, bounce).

pub mod framebuffer;
pub mod integrator;
