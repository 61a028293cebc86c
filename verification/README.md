# Kindle dashboard

A Home Assistant dashboard for Kindle e-readers: weather, thermostats, lights, a fan, the calendar
and the battery, drawn on the e-ink panel.

`src/` is the library, written and proved in Verus. It holds what the dashboard decides and
computes, but for floating point:

- `home`, `snapshot`, `fetch`, `requests`: what is asked of Home Assistant and what is made of the
  answers
- `calendar`, `labels`, `text`: the agenda, and the words on the screen
- `controls`, `refresh`, `view`: what the user can do, when the window changes, what it shows
- `battery`: the battery indicator
- `framebuffer`, `pixels`, `display`: the e-ink panel
- `cover`, `platform`: the magnetic cover and the event loop

`app/` is the program around it: the window, the network, the devices, the environment and the
clock. It hands the library what it has read and does what the library says. The scale of the window
and the arithmetic on temperatures are floating point and stand there too.

Temperatures are a type parameter of the library. The program takes `f64`, and hands the library
the few operations on them that it needs.
